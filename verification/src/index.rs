use vstd::prelude::*;

verus! {

// ---------------------------------------------------------------------------
// Offset index
// ---------------------------------------------------------------------------

/// One sampled entry of the offset index: a message offset and the byte
/// position where that message starts within the segment's log.
#[derive(Clone, Copy, PartialEq, Eq, Structural, Debug)]
pub struct IndexEntry {
    pub offset: u64,
    pub position: u64,
}

/// Sparse offset index: a sampled subset of offsets mapped to byte
/// positions, strictly increasing in both.
#[derive(Debug)]
pub struct OffsetIndex {
    pub entries: Vec<IndexEntry>,
}

impl View for OffsetIndex {
    type V = Seq<IndexEntry>;

    open spec fn view(&self) -> Seq<IndexEntry> {
        self.entries@
    }
}

/// Index of the last entry whose offset is at most `o`, or -1 if the
/// sequence holds none.
pub open spec fn spec_floor_idx(s: Seq<IndexEntry>, o: u64) -> int
    decreases s.len(),
{
    if s.len() == 0 {
        -1
    } else if s.last().offset <= o {
        s.len() - 1
    } else {
        spec_floor_idx(s.drop_last(), o)
    }
}

/// The sampled entry a lookup resolves for `o`: the last entry whose
/// offset is at most `o`.
pub open spec fn spec_floor(s: Seq<IndexEntry>, o: u64) -> Option<IndexEntry> {
    let i = spec_floor_idx(s, o);
    if i >= 0 {
        Some(s[i])
    } else {
        None
    }
}

pub proof fn lemma_floor_idx_bounds(s: Seq<IndexEntry>, o: u64)
    ensures
        -1 <= spec_floor_idx(s, o) < s.len(),
        spec_floor_idx(s, o) >= 0 ==> s[spec_floor_idx(s, o)].offset <= o,
    decreases s.len(),
{
    if s.len() > 0 && s.last().offset > o {
        lemma_floor_idx_bounds(s.drop_last(), o);
        assert(forall|t: int|
            0 <= t < s.len() - 1 ==> #[trigger] s.drop_last()[t] == s[t]);
    }
}

/// The resolved index never shrinks as the looked-up offset grows.
pub proof fn lemma_floor_idx_monotonic(s: Seq<IndexEntry>, o1: u64, o2: u64)
    requires
        o1 <= o2,
    ensures
        spec_floor_idx(s, o1) <= spec_floor_idx(s, o2),
    decreases s.len(),
{
    if s.len() > 0 {
        if s.last().offset <= o1 {
        } else if s.last().offset > o2 {
            lemma_floor_idx_monotonic(s.drop_last(), o1, o2);
        } else {
            lemma_floor_idx_bounds(s.drop_last(), o1);
        }
    }
}

impl OffsetIndex {
    /// Entries strictly increase in offset and in position.
    pub open spec fn wf(self) -> bool {
        forall|i: int, j: int|
            #![trigger self@[i], self@[j]]
            0 <= i < j < self@.len() ==> self@[i].offset < self@[j].offset
                && self@[i].position < self@[j].position
    }

    /// An index with no entries.
    pub fn new() -> (r: OffsetIndex)
        ensures
            r@ =~= Seq::<IndexEntry>::empty(),
            r.wf(),
    {
        OffsetIndex { entries: Vec::new() }
    }

    /// Find the last sampled entry whose offset is at most `o`.
    pub fn lookup(&self, o: u64) -> (r: Option<IndexEntry>)
        ensures
            r == spec_floor(self@, o),
    {
        let mut i: usize = self.entries.len();
        proof {
            assert(self@.subrange(0, self@.len() as int) =~= self@);
        }
        while i > 0
            invariant
                0 <= i <= self@.len(),
                spec_floor_idx(self@, o) == spec_floor_idx(self@.subrange(0, i as int), o),
            decreases i,
        {
            proof {
                let pre = self@.subrange(0, i as int);
                assert(pre.last() == self@[i - 1]);
                assert(pre.drop_last() =~= self@.subrange(0, i - 1));
            }
            if self.entries[i - 1].offset <= o {
                proof {
                    lemma_floor_idx_bounds(self@, o);
                }
                return Some(self.entries[i - 1]);
            }
            i = i - 1;
        }
        proof {
            assert(self@.subrange(0, 0) =~= Seq::<IndexEntry>::empty());
        }
        None
    }
}

/// With strictly increasing offsets, the floor of `o` is the entry at `k`
/// when that entry's offset is at most `o` and the next one's, if any, is
/// greater.
pub proof fn lemma_floor_char(s: Seq<IndexEntry>, o: u64, k: int)
    requires
        forall|i: int, j: int|
            #![trigger s[i], s[j]]
            0 <= i < j < s.len() ==> s[i].offset < s[j].offset,
        0 <= k < s.len(),
        s[k].offset <= o,
        k == s.len() - 1 || s[k + 1].offset > o,
    ensures
        spec_floor_idx(s, o) == k,
    decreases s.len(),
{
    if k == s.len() - 1 {
    } else if s.last().offset <= o {
        assert(s[k + 1].offset <= s[s.len() - 1].offset);
        assert(false);
    } else {
        let d = s.drop_last();
        assert(forall|t: int| 0 <= t < d.len() ==> #[trigger] d[t] == s[t]);
        lemma_floor_char(d, o, k);
    }
}

/// Offset-index lookups are monotonic: the position resolved for a smaller
/// offset never exceeds the position resolved for a larger one, and a
/// lookup that resolves for the smaller offset resolves for the larger too.
pub proof fn lemma_lookup_monotonic(idx: OffsetIndex, o1: u64, o2: u64)
    requires
        idx.wf(),
        o1 <= o2,
    ensures
        (match (spec_floor(idx@, o1), spec_floor(idx@, o2)) {
            (Some(e1), Some(e2)) => e1.position <= e2.position,
            (Some(_), None) => false,
            _ => true,
        }),
{
    lemma_floor_idx_bounds(idx@, o1);
    lemma_floor_idx_bounds(idx@, o2);
    lemma_floor_idx_monotonic(idx@, o1, o2);
}

// ---------------------------------------------------------------------------
// Time index
// ---------------------------------------------------------------------------

/// One sampled entry of the time index: the largest timestamp observed up
/// to a sampled message, and that message's offset.
#[derive(Clone, Copy, PartialEq, Eq, Structural, Debug)]
pub struct TimeEntry {
    pub timestamp: u64,
    pub offset: u64,
}

/// Sparse time index: sampled timestamps mapped to offsets, timestamps
/// non-decreasing and offsets strictly increasing.
#[derive(Debug)]
pub struct TimeIndex {
    pub entries: Vec<TimeEntry>,
}

impl View for TimeIndex {
    type V = Seq<TimeEntry>;

    open spec fn view(&self) -> Seq<TimeEntry> {
        self.entries@
    }
}

/// Index of the last entry whose timestamp is strictly below `ts`, or -1.
pub open spec fn spec_time_floor_idx(s: Seq<TimeEntry>, ts: u64) -> int
    decreases s.len(),
{
    if s.len() == 0 {
        -1
    } else if s.last().timestamp < ts {
        s.len() - 1
    } else {
        spec_time_floor_idx(s.drop_last(), ts)
    }
}

/// The sampled entry a lookup resolves for `ts`: the last entry whose
/// timestamp is strictly below `ts`, so the scan it narrows to can never
/// start past a message whose timestamp reaches `ts`.
pub open spec fn spec_time_floor(s: Seq<TimeEntry>, ts: u64) -> Option<TimeEntry> {
    let i = spec_time_floor_idx(s, ts);
    if i >= 0 {
        Some(s[i])
    } else {
        None
    }
}

impl TimeIndex {
    /// Timestamps never decrease and offsets strictly increase.
    pub open spec fn wf(self) -> bool {
        forall|i: int, j: int|
            #![trigger self@[i], self@[j]]
            0 <= i < j < self@.len() ==> self@[i].timestamp <= self@[j].timestamp
                && self@[i].offset < self@[j].offset
    }

    /// An index with no entries.
    pub fn new() -> (r: TimeIndex)
        ensures
            r@ =~= Seq::<TimeEntry>::empty(),
            r.wf(),
    {
        TimeIndex { entries: Vec::new() }
    }

    /// Find the last sampled entry whose timestamp is strictly below `ts`.
    pub fn lookup(&self, ts: u64) -> (r: Option<TimeEntry>)
        ensures
            r == spec_time_floor(self@, ts),
    {
        let mut i: usize = self.entries.len();
        proof {
            assert(self@.subrange(0, self@.len() as int) =~= self@);
        }
        while i > 0
            invariant
                0 <= i <= self@.len(),
                spec_time_floor_idx(self@, ts) == spec_time_floor_idx(
                    self@.subrange(0, i as int),
                    ts,
                ),
            decreases i,
        {
            proof {
                let pre = self@.subrange(0, i as int);
                assert(pre.last() == self@[i - 1]);
                assert(pre.drop_last() =~= self@.subrange(0, i - 1));
            }
            if self.entries[i - 1].timestamp < ts {
                proof {
                    lemma_time_floor_idx_bounds(self@, ts);
                }
                return Some(self.entries[i - 1]);
            }
            i = i - 1;
        }
        proof {
            assert(self@.subrange(0, 0) =~= Seq::<TimeEntry>::empty());
        }
        None
    }
}

pub proof fn lemma_time_floor_idx_bounds(s: Seq<TimeEntry>, ts: u64)
    ensures
        -1 <= spec_time_floor_idx(s, ts) < s.len(),
        spec_time_floor_idx(s, ts) >= 0 ==> s[spec_time_floor_idx(s, ts)].timestamp < ts,
    decreases s.len(),
{
    if s.len() > 0 && s.last().timestamp >= ts {
        lemma_time_floor_idx_bounds(s.drop_last(), ts);
        assert(forall|t: int|
            0 <= t < s.len() - 1 ==> #[trigger] s.drop_last()[t] == s[t]);
    }
}

} // verus!
