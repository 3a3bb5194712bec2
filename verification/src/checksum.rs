use vstd::prelude::*;
use vstd::string::StrSliceExecFns;

verus! {

/// Seed of the 32-bit mixing function.
pub const CHECKSUM_SEED: u32 = 2166136261;

/// Multiplier of the 32-bit mixing function.
pub const CHECKSUM_PRIME: u32 = 16777619;

/// One mixing step: fold one token into the running checksum.
pub open spec fn mix(h: u32, t: u32) -> u32 {
    (h ^ t).wrapping_mul(CHECKSUM_PRIME)
}

/// Fold a byte sequence into a running checksum, left to right.
pub open spec fn mix_bytes(h: u32, s: Seq<u8>) -> u32
    decreases s.len(),
{
    if s.len() == 0 {
        h
    } else {
        mix(mix_bytes(h, s.drop_last()), s.last() as u32)
    }
}

/// Fold a character sequence into a running checksum, left to right.
pub open spec fn mix_chars(h: u32, s: Seq<char>) -> u32
    decreases s.len(),
{
    if s.len() == 0 {
        h
    } else {
        mix(mix_chars(h, s.drop_last()), s.last() as u32)
    }
}

/// Checksum of a byte sequence.
pub open spec fn spec_get(s: Seq<u8>) -> u32 {
    mix_bytes(CHECKSUM_SEED, s)
}

/// One mixing step, executable.
pub fn mix_step(h: u32, t: u32) -> (r: u32)
    ensures
        r == mix(h, t),
{
    (h ^ t).wrapping_mul(CHECKSUM_PRIME)
}

/// Fold a byte slice into a running checksum.
pub fn mix_slice(h0: u32, data: &[u8]) -> (r: u32)
    ensures
        r == mix_bytes(h0, data@),
{
    let mut h: u32 = h0;
    let mut i: usize = 0;
    while i < data.len()
        invariant
            0 <= i <= data@.len(),
            h == mix_bytes(h0, data@.subrange(0, i as int)),
        decreases data@.len() - i,
    {
        proof {
            let ext = data@.subrange(0, i + 1);
            assert(ext.drop_last() =~= data@.subrange(0, i as int));
            assert(ext.last() == data@[i as int]);
        }
        h = mix_step(h, data[i] as u32);
        i = i + 1;
    }
    proof {
        assert(data@.subrange(0, data@.len() as int) =~= data@);
    }
    h
}

/// Fold the characters of a string into a running checksum.
pub fn mix_str(h0: u32, s: &str) -> (r: u32)
    ensures
        r == mix_chars(h0, s@),
{
    let n = s.unicode_len();
    let mut h: u32 = h0;
    let mut i: usize = 0;
    while i < n
        invariant
            0 <= i <= s@.len(),
            n == s@.len(),
            h == mix_chars(h0, s@.subrange(0, i as int)),
        decreases s@.len() - i,
    {
        proof {
            let ext = s@.subrange(0, i + 1);
            assert(ext.drop_last() =~= s@.subrange(0, i as int));
            assert(ext.last() == s@[i as int]);
        }
        let c = s.get_char(i);
        h = mix_step(h, c as u32);
        i = i + 1;
    }
    proof {
        assert(s@.subrange(0, s@.len() as int) =~= s@);
    }
    h
}

/// Checksum of a byte slice. Deterministic: equal bytes give equal checksums.
pub fn get(data: &[u8]) -> (c: u32)
    ensures
        c == spec_get(data@),
{
    mix_slice(CHECKSUM_SEED, data)
}

} // verus!
