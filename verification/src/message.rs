use vstd::prelude::*;
use vstd::arithmetic::mul::lemma_mul_inequality;
use vstd::string::StrSliceExecFns;
use crate::checksum::{mix, mix_bytes, mix_chars, mix_step, mix_slice, mix_str, CHECKSUM_SEED};
use crate::config::{StorageConfig, MESSAGE_OVERHEAD};
use crate::errors::EngineError;

verus! {

/// Marker folded between the key and the value of every header while
/// computing a message checksum.
pub const HEADER_BOUNDARY: u32 = 0xffffffff;

/// Mathematical model of one header.
pub struct HeaderView {
    pub key: Seq<char>,
    pub value: Seq<u8>,
}

/// One named header of a message.
#[derive(Debug)]
pub struct Header {
    pub key: String,
    pub value: Vec<u8>,
}

impl View for Header {
    type V = HeaderView;

    open spec fn view(&self) -> HeaderView {
        HeaderView { key: self.key@, value: self.value@ }
    }
}

/// Mathematical model of one message.
pub struct MessageView {
    pub id: u128,
    pub timestamp: u64,
    pub headers: Seq<HeaderView>,
    pub payload: Seq<u8>,
    pub checksum: u32,
}

/// One message of the log: an identifier, a timestamp in microseconds,
/// optional headers, an opaque payload, and the checksum recorded at
/// append time.
#[derive(Debug)]
pub struct Message {
    pub id: u128,
    pub timestamp: u64,
    pub headers: Vec<Header>,
    pub payload: Vec<u8>,
    pub checksum: u32,
}

pub open spec fn header_views(s: Seq<Header>) -> Seq<HeaderView> {
    s.map_values(|h: Header| h@)
}

pub open spec fn message_views(s: Seq<Message>) -> Seq<MessageView> {
    s.map_values(|m: Message| m@)
}

impl View for Message {
    type V = MessageView;

    open spec fn view(&self) -> MessageView {
        MessageView {
            id: self.id,
            timestamp: self.timestamp,
            headers: header_views(self.headers@),
            payload: self.payload@,
            checksum: self.checksum,
        }
    }
}

// ---------------------------------------------------------------------------
// Checksum over a message's content
// ---------------------------------------------------------------------------

/// Fold a 64-bit value into the checksum as two 32-bit words, low first.
pub open spec fn mix_u64(h: u32, x: u64) -> u32 {
    mix(mix(h, (x & 0xffffffff) as u32), ((x >> 32u64) & 0xffffffff) as u32)
}

/// Fold a 128-bit value into the checksum as four 32-bit words, low first.
pub open spec fn mix_u128(h: u32, x: u128) -> u32 {
    mix(
        mix(
            mix(mix(h, (x & 0xffffffff) as u32), ((x >> 32u128) & 0xffffffff) as u32),
            ((x >> 64u128) & 0xffffffff) as u32,
        ),
        ((x >> 96u128) & 0xffffffff) as u32,
    )
}

/// Fold one header into the checksum: its key, a boundary marker, its value.
pub open spec fn mix_header(h: u32, hd: HeaderView) -> u32 {
    mix_bytes(mix(mix_chars(h, hd.key), HEADER_BOUNDARY), hd.value)
}

/// Fold a run of headers into the checksum, left to right.
pub open spec fn mix_headers(h: u32, s: Seq<HeaderView>) -> u32
    decreases s.len(),
{
    if s.len() == 0 {
        h
    } else {
        mix_header(mix_headers(h, s.drop_last()), s.last())
    }
}

/// Checksum covering a message's identifier, timestamp, headers and payload.
pub open spec fn checksum_of(
    id: u128,
    timestamp: u64,
    headers: Seq<HeaderView>,
    payload: Seq<u8>,
) -> u32 {
    mix_bytes(mix_headers(mix_u64(mix_u128(CHECKSUM_SEED, id), timestamp), headers), payload)
}

/// The checksum a message's content calls for, regardless of the one stored.
pub open spec fn message_checksum(m: MessageView) -> u32 {
    checksum_of(m.id, m.timestamp, m.headers, m.payload)
}

/// A stored message whose recorded checksum matches its content.
pub open spec fn stored_valid(m: MessageView) -> bool {
    m.checksum == message_checksum(m)
}

/// The message as the log stores it: checksum recomputed over the content.
pub open spec fn seal(m: MessageView) -> MessageView {
    MessageView { checksum: message_checksum(m), ..m }
}

pub open spec fn seal_all(s: Seq<MessageView>) -> Seq<MessageView> {
    s.map_values(|m: MessageView| seal(m))
}

proof fn lemma_mask32_u128(x: u128)
    ensures
        x & 0xffffffff <= 0xffffffff,
{
    assert(x & 0xffffffff <= 0xffffffff) by (bit_vector);
}

proof fn lemma_mask32_u64(x: u64)
    ensures
        x & 0xffffffff <= 0xffffffff,
{
    assert(x & 0xffffffff <= 0xffffffff) by (bit_vector);
}

fn mix_u128_exec(h: u32, x: u128) -> (r: u32)
    ensures
        r == mix_u128(h, x),
{
    proof {
        lemma_mask32_u128(x);
        lemma_mask32_u128(x >> 32u128);
        lemma_mask32_u128(x >> 64u128);
        lemma_mask32_u128(x >> 96u128);
    }
    let w0 = (x & 0xffffffff) as u32;
    let w1 = ((x >> 32u128) & 0xffffffff) as u32;
    let w2 = ((x >> 64u128) & 0xffffffff) as u32;
    let w3 = ((x >> 96u128) & 0xffffffff) as u32;
    mix_step(mix_step(mix_step(mix_step(h, w0), w1), w2), w3)
}

fn mix_u64_exec(h: u32, x: u64) -> (r: u32)
    ensures
        r == mix_u64(h, x),
{
    proof {
        lemma_mask32_u64(x);
        lemma_mask32_u64(x >> 32u64);
    }
    let w0 = (x & 0xffffffff) as u32;
    let w1 = ((x >> 32u64) & 0xffffffff) as u32;
    mix_step(mix_step(h, w0), w1)
}

/// Checksum of a message's content, computed at append time and checked
/// again at read time.
pub fn compute_checksum(
    id: u128,
    timestamp: u64,
    headers: &Vec<Header>,
    payload: &Vec<u8>,
) -> (c: u32)
    ensures
        c == checksum_of(id, timestamp, header_views(headers@), payload@),
{
    let mut h = mix_u128_exec(CHECKSUM_SEED, id);
    h = mix_u64_exec(h, timestamp);
    let ghost h_base = h;
    let mut i: usize = 0;
    while i < headers.len()
        invariant
            0 <= i <= headers@.len(),
            h == mix_headers(h_base, header_views(headers@).subrange(0, i as int)),
        decreases headers@.len() - i,
    {
        proof {
            let hv = header_views(headers@);
            let ext = hv.subrange(0, i + 1);
            assert(ext.drop_last() =~= hv.subrange(0, i as int));
            assert(ext.last() == hv[i as int]);
            assert(hv[i as int] == headers@[i as int]@);
        }
        let hd = &headers[i];
        h = mix_str(h, hd.key.as_str());
        h = mix_step(h, HEADER_BOUNDARY);
        h = mix_slice(h, hd.value.as_slice());
        i = i + 1;
    }
    proof {
        assert(header_views(headers@).subrange(0, headers@.len() as int)
            =~= header_views(headers@));
    }
    mix_slice(h, payload.as_slice())
}

// ---------------------------------------------------------------------------
// Accounted sizes
// ---------------------------------------------------------------------------

/// Accounted size of one header: a length field of each part, key and value.
pub open spec fn spec_header_size(h: HeaderView) -> nat {
    8 + h.key.len() + h.value.len()
}

pub open spec fn spec_headers_size(s: Seq<HeaderView>) -> nat
    decreases s.len(),
{
    if s.len() == 0 {
        0
    } else {
        spec_headers_size(s.drop_last()) + spec_header_size(s.last())
    }
}

/// Accounted size of one message within a segment.
pub open spec fn spec_message_size(m: MessageView) -> nat {
    MESSAGE_OVERHEAD as nat + spec_headers_size(m.headers) + m.payload.len()
}

/// Accounted size of a run of messages.
pub open spec fn spec_batch_size(s: Seq<MessageView>) -> nat
    decreases s.len(),
{
    if s.len() == 0 {
        0
    } else {
        spec_batch_size(s.drop_last()) + spec_message_size(s.last())
    }
}

pub proof fn lemma_headers_size_concat(a: Seq<HeaderView>, b: Seq<HeaderView>)
    ensures
        spec_headers_size(a + b) == spec_headers_size(a) + spec_headers_size(b),
    decreases b.len(),
{
    if b.len() == 0 {
        assert(a + b =~= a);
    } else {
        assert((a + b).drop_last() =~= a + b.drop_last());
        lemma_headers_size_concat(a, b.drop_last());
    }
}

pub proof fn lemma_batch_size_concat(a: Seq<MessageView>, b: Seq<MessageView>)
    ensures
        spec_batch_size(a + b) == spec_batch_size(a) + spec_batch_size(b),
    decreases b.len(),
{
    if b.len() == 0 {
        assert(a + b =~= a);
    } else {
        assert((a + b).drop_last() =~= a + b.drop_last());
        lemma_batch_size_concat(a, b.drop_last());
    }
}

/// A prefix never outweighs the whole run.
pub proof fn lemma_batch_size_prefix(s: Seq<MessageView>, i: int)
    requires
        0 <= i <= s.len(),
    ensures
        spec_batch_size(s.subrange(0, i)) <= spec_batch_size(s),
{
    assert(s =~= s.subrange(0, i) + s.subrange(i, s.len() as int));
    lemma_batch_size_concat(s.subrange(0, i), s.subrange(i, s.len() as int));
}

// ---------------------------------------------------------------------------
// Validation
// ---------------------------------------------------------------------------

/// Why one header is rejected, if it is. A header is malformed when its
/// key or its value is empty.
pub open spec fn header_error(h: HeaderView) -> Option<EngineError> {
    if h.key.len() == 0 {
        Some(EngineError::InvalidHeaderKey)
    } else if h.value.len() == 0 {
        Some(EngineError::InvalidHeaderValue)
    } else {
        None
    }
}

pub open spec fn headers_error(s: Seq<HeaderView>) -> Option<EngineError>
    decreases s.len(),
{
    if s.len() == 0 {
        None
    } else if header_error(s.first()) is Some {
        header_error(s.first())
    } else {
        headers_error(s.drop_first())
    }
}

/// Why one message is rejected, if it is: empty payload, oversized payload,
/// oversized header block, then the first malformed header.
pub open spec fn message_error(m: MessageView, cfg: StorageConfig) -> Option<EngineError> {
    if m.payload.len() == 0 {
        Some(EngineError::EmptyMessagePayload)
    } else if m.payload.len() > cfg.max_payload_size {
        Some(EngineError::TooBigMessagePayload)
    } else if spec_headers_size(m.headers) > cfg.max_headers_size {
        Some(EngineError::TooBigHeadersPayload)
    } else {
        headers_error(m.headers)
    }
}

pub open spec fn messages_error(s: Seq<MessageView>, cfg: StorageConfig) -> Option<EngineError>
    decreases s.len(),
{
    if s.len() == 0 {
        None
    } else if message_error(s.first(), cfg) is Some {
        message_error(s.first(), cfg)
    } else {
        messages_error(s.drop_first(), cfg)
    }
}

/// The first reason to reject an append batch, if any.
pub open spec fn batch_error(s: Seq<MessageView>, cfg: StorageConfig) -> Option<EngineError> {
    if s.len() == 0 || s.len() > cfg.max_messages_count {
        Some(EngineError::InvalidMessagesCount)
    } else {
        messages_error(s, cfg)
    }
}

/// A batch free of message-level errors is free of them message by message.
pub proof fn lemma_messages_error_none(s: Seq<MessageView>, cfg: StorageConfig)
    ensures
        messages_error(s, cfg) is None <==> (forall|i: int|
            0 <= i < s.len() ==> #[trigger] message_error(s[i], cfg) is None),
    decreases s.len(),
{
    if s.len() > 0 {
        lemma_messages_error_none(s.drop_first(), cfg);
        if message_error(s.first(), cfg) is None {
            assert forall|i: int| 0 <= i < s.len() && messages_error(s, cfg) is None
                implies #[trigger] message_error(s[i], cfg) is None by {
                if i > 0 {
                    assert(s.drop_first()[i - 1] == s[i]);
                }
            }
            if forall|i: int| 0 <= i < s.len() ==> #[trigger] message_error(s[i], cfg) is None {
                assert forall|i: int| 0 <= i < s.drop_first().len()
                    implies #[trigger] message_error(s.drop_first()[i], cfg) is None by {
                    assert(s.drop_first()[i] == s[i + 1]);
                }
            }
        }
    }
}

/// A message the validator accepts is no larger than the configured parts.
pub proof fn lemma_valid_message_size(m: MessageView, cfg: StorageConfig)
    requires
        message_error(m, cfg) is None,
    ensures
        spec_message_size(m) <= MESSAGE_OVERHEAD + cfg.max_headers_size + cfg.max_payload_size,
{
}

/// With a well-formed configuration, one maximal message fits a segment.
pub proof fn lemma_one_message_fits(cfg: StorageConfig)
    requires
        cfg.wf(),
    ensures
        MESSAGE_OVERHEAD + cfg.max_headers_size + cfg.max_payload_size <= cfg.max_size,
{
    let per = MESSAGE_OVERHEAD + cfg.max_headers_size + cfg.max_payload_size;
    lemma_mul_inequality(1, cfg.max_messages_count as int, per as int);
}

/// Check one message against the configured limits. Returns its accounted
/// size, or exactly the first error `message_error` names.
#[verifier::rlimit(60)]
pub fn validate_message(msg: &Message, cfg: &StorageConfig) -> (r: Result<u64, EngineError>)
    requires
        cfg.wf(),
    ensures
        match r {
            Ok(size) => message_error(msg@, *cfg) is None && size == spec_message_size(msg@),
            Err(e) => message_error(msg@, *cfg) == Some(e),
        },
{
    proof {
        lemma_one_message_fits(*cfg);
    }
    if msg.payload.len() == 0 {
        return Err(EngineError::EmptyMessagePayload);
    }
    if msg.payload.len() as u64 > cfg.max_payload_size {
        return Err(EngineError::TooBigMessagePayload);
    }
    let ghost hv = header_views(msg.headers@);
    let mut hsize: u64 = 0;
    let mut i: usize = 0;
    while i < msg.headers.len()
        invariant
            0 <= i <= msg.headers@.len(),
            hv == header_views(msg.headers@),
            hsize == spec_headers_size(hv.subrange(0, i as int)),
            hsize <= cfg.max_headers_size,
            msg.payload@.len() > 0,
            msg.payload@.len() <= cfg.max_payload_size,
        decreases msg.headers@.len() - i,
    {
        let hd = &msg.headers[i];
        let k = hd.key.as_str().unicode_len();
        let v = hd.value.len();
        let need: u128 = 8u128 + (k as u128) + (v as u128);
        proof {
            let ext = hv.subrange(0, i + 1);
            assert(ext.drop_last() =~= hv.subrange(0, i as int));
            assert(ext.last() == hv[i as int]);
            assert(hv[i as int] == msg.headers@[i as int]@);
            assert(spec_header_size(hv[i as int]) == 8 + k + v);
            assert(spec_headers_size(ext) == hsize + spec_header_size(hv[i as int]));
            assert(hv =~= hv.subrange(0, i + 1) + hv.subrange(i + 1, hv.len() as int));
            lemma_headers_size_concat(
                hv.subrange(0, i + 1),
                hv.subrange(i + 1, hv.len() as int),
            );
            assert(spec_headers_size(hv) >= hsize + 8 + k + v);
        }
        if need > (cfg.max_headers_size - hsize) as u128 {
            proof {
                assert(spec_headers_size(hv) > cfg.max_headers_size);
            }
            return Err(EngineError::TooBigHeadersPayload);
        }
        hsize = hsize + (need as u64);
        i = i + 1;
    }
    proof {
        assert(hv.subrange(0, hv.len() as int) =~= hv);
    }
    // The header block fits; now reject the first malformed header, if any.
    let mut j: usize = 0;
    while j < msg.headers.len()
        invariant
            0 <= j <= msg.headers@.len(),
            hv == header_views(msg.headers@),
            headers_error(hv) == headers_error(hv.subrange(j as int, hv.len() as int)),
            forall|t: int| 0 <= t < j ==> #[trigger] header_error(hv[t]) is None,
            msg.payload@.len() > 0,
            msg.payload@.len() <= cfg.max_payload_size,
            spec_headers_size(hv) <= cfg.max_headers_size,
        decreases msg.headers@.len() - j,
    {
        proof {
            let rest = hv.subrange(j as int, hv.len() as int);
            assert(rest.len() > 0);
            assert(rest.first() == hv[j as int]);
            assert(rest.drop_first() =~= hv.subrange(j + 1, hv.len() as int));
            assert(hv[j as int] == msg.headers@[j as int]@);
        }
        let hd = &msg.headers[j];
        if hd.key.as_str().unicode_len() == 0 {
            proof {
                assert(header_error(hv[j as int]) == Some(EngineError::InvalidHeaderKey));
                assert(headers_error(hv) == Some(EngineError::InvalidHeaderKey));
            }
            return Err(EngineError::InvalidHeaderKey);
        }
        if hd.value.len() == 0 {
            proof {
                assert(header_error(hv[j as int]) == Some(EngineError::InvalidHeaderValue));
                assert(headers_error(hv) == Some(EngineError::InvalidHeaderValue));
            }
            return Err(EngineError::InvalidHeaderValue);
        }
        j = j + 1;
    }
    proof {
        assert(hv.subrange(msg.headers@.len() as int, hv.len() as int) =~= Seq::<
            HeaderView,
        >::empty());
    }
    Ok(MESSAGE_OVERHEAD + hsize + msg.payload.len() as u64)
}

/// Check a whole batch. Returns its accounted size, or exactly the first
/// error `batch_error` names. The size of an accepted batch never exceeds
/// the segment cap, so a fresh segment can always take it.
pub fn validate_batch(batch: &Vec<Message>, cfg: &StorageConfig) -> (r: Result<u64, EngineError>)
    requires
        cfg.wf(),
    ensures
        match r {
            Ok(size) => batch_error(message_views(batch@), *cfg) is None && size
                == spec_batch_size(message_views(batch@)) && size <= cfg.max_size,
            Err(e) => batch_error(message_views(batch@), *cfg) == Some(e),
        },
{
    let ghost mv = message_views(batch@);
    let ghost per = (MESSAGE_OVERHEAD + cfg.max_headers_size + cfg.max_payload_size) as int;
    if batch.len() == 0 || batch.len() as u64 > cfg.max_messages_count {
        return Err(EngineError::InvalidMessagesCount);
    }
    proof {
        assert(mv.subrange(0, mv.len() as int) =~= mv);
    }
    let mut size: u64 = 0;
    let mut i: usize = 0;
    while i < batch.len()
        invariant
            0 <= i <= batch@.len(),
            mv == message_views(batch@),
            cfg.wf(),
            batch@.len() <= cfg.max_messages_count,
            size == spec_batch_size(mv.subrange(0, i as int)),
            size <= i as int * per,
            per == MESSAGE_OVERHEAD + cfg.max_headers_size + cfg.max_payload_size,
            messages_error(mv, *cfg) == messages_error(mv.subrange(i as int, mv.len() as int), *cfg),
        decreases batch@.len() - i,
    {
        proof {
            let rest = mv.subrange(i as int, mv.len() as int);
            assert(rest.first() == mv[i as int]);
            assert(rest.drop_first() =~= mv.subrange(i + 1, mv.len() as int));
            assert(mv[i as int] == batch@[i as int]@);
            let ext = mv.subrange(0, i + 1);
            assert(ext.drop_last() =~= mv.subrange(0, i as int));
            assert(ext.last() == mv[i as int]);
            lemma_mul_inequality(i + 1, cfg.max_messages_count as int, per);
            lemma_one_message_fits(*cfg);
        }
        let msize = match validate_message(&batch[i], cfg) {
            Ok(s) => s,
            Err(e) => {
                return Err(e);
            },
        };
        proof {
            lemma_valid_message_size(mv[i as int], *cfg);
            assert((i as int + 1) * per == i as int * per + per) by (nonlinear_arith);
        }
        size = size + msize;
        i = i + 1;
    }
    proof {
        assert(mv.subrange(0, mv.len() as int) =~= mv);
        assert(mv.subrange(mv.len() as int, mv.len() as int) =~= Seq::<MessageView>::empty());
        lemma_mul_inequality(mv.len() as int, cfg.max_messages_count as int, per);
    }
    Ok(size)
}

// ---------------------------------------------------------------------------
// Copying
// ---------------------------------------------------------------------------

/// Byte-for-byte copy of a buffer.
pub fn copy_bytes(v: &Vec<u8>) -> (r: Vec<u8>)
    ensures
        r@ == v@,
{
    let mut out: Vec<u8> = Vec::new();
    let mut i: usize = 0;
    while i < v.len()
        invariant
            0 <= i <= v@.len(),
            out@ == v@.subrange(0, i as int),
        decreases v@.len() - i,
    {
        out.push(v[i]);
        proof {
            assert(out@ =~= v@.subrange(0, i + 1));
        }
        i = i + 1;
    }
    proof {
        assert(v@.subrange(0, v@.len() as int) =~= v@);
    }
    out
}

impl Header {
    /// An equal copy of this header.
    pub fn duplicate(&self) -> (h: Header)
        ensures
            h@ == self@,
    {
        Header { key: self.key.clone(), value: copy_bytes(&self.value) }
    }
}

impl Message {
    /// An equal copy of this message, stored checksum included.
    pub fn duplicate(&self) -> (m: Message)
        ensures
            m@ == self@,
    {
        let mut headers: Vec<Header> = Vec::new();
        let mut i: usize = 0;
        while i < self.headers.len()
            invariant
                0 <= i <= self.headers@.len(),
                headers@.len() == i,
                forall|t: int| 0 <= t < i ==> #[trigger] headers@[t]@ == self.headers@[t]@,
            decreases self.headers@.len() - i,
        {
            headers.push(self.headers[i].duplicate());
            i = i + 1;
        }
        proof {
            let a = header_views(headers@);
            let b = header_views(self.headers@);
            assert forall|t: int| 0 <= t < a.len() implies a[t] == b[t] by {
                assert(headers@[t]@ == self.headers@[t]@);
            }
            assert(a =~= b);
        }
        Message {
            id: self.id,
            timestamp: self.timestamp,
            headers,
            payload: copy_bytes(&self.payload),
            checksum: self.checksum,
        }
    }

    /// A copy of this message with the checksum recomputed over its content,
    /// as the log stores it.
    pub fn sealed_copy(&self) -> (m: Message)
        ensures
            m@ == seal(self@),
    {
        let c = compute_checksum(self.id, self.timestamp, &self.headers, &self.payload);
        let mut m = self.duplicate();
        m.checksum = c;
        m
    }
}

} // verus!
