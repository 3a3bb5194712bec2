use vstd::prelude::*;
use vstd::arithmetic::div_mod::{lemma_fundamental_div_mod, lemma_mod_bound};
use vstd::arithmetic::mul::lemma_mul_inequality;
use crate::config::StorageConfig;
use crate::errors::EngineError;
use crate::index::{
    spec_floor, lemma_floor_char, IndexEntry, OffsetIndex, TimeEntry, TimeIndex, spec_time_floor,
};
use crate::message::{
    batch_error, lemma_batch_size_concat, lemma_messages_error_none, message_checksum,
    message_error, message_views, seal, seal_all, spec_batch_size, stored_valid, validate_batch,
    validate_message, compute_checksum, spec_message_size, Message, MessageView,
};

verus! {

/// One bounded chunk of a partition's log: a strictly offset-ordered run
/// of messages together with its sparse offset and time indexes. A segment
/// is writable until it is closed; once closed it never changes again.
#[derive(Debug)]
pub struct Segment {
    /// Offset of the segment's first message.
    pub start_offset: u64,
    /// Accounted bytes stored so far; never exceeds `config.max_size`.
    pub current_size: u64,
    /// Largest timestamp observed among the stored messages.
    pub max_timestamp: u64,
    /// A closed segment is immutable forever.
    pub closed: bool,
    /// The limits this segment was created under.
    pub config: StorageConfig,
    /// The message log.
    pub messages: Vec<Message>,
    /// Sparse index from sampled offsets to byte positions.
    pub offset_index: OffsetIndex,
    /// Sparse index from sampled running-maximum timestamps to offsets.
    pub time_index: TimeIndex,
}

// ---------------------------------------------------------------------------
// Ideal index shapes
// ---------------------------------------------------------------------------

/// The offset index a log of `msgs` messages calls for: one entry per
/// message whose relative index is a multiple of the sampling interval,
/// holding its offset and the accounted byte position where it starts.
pub open spec fn ideal_offset_index(msgs: Seq<MessageView>, start: u64, interval: nat) -> Seq<
    IndexEntry,
>
    decreases msgs.len(),
{
    if msgs.len() == 0 {
        Seq::empty()
    } else {
        let prev = ideal_offset_index(msgs.drop_last(), start, interval);
        if ((msgs.len() - 1) as nat) % interval == 0 {
            prev.push(
                IndexEntry {
                    offset: (start + msgs.len() - 1) as u64,
                    position: spec_batch_size(msgs.drop_last()) as u64,
                },
            )
        } else {
            prev
        }
    }
}

/// Largest timestamp among the messages up to index `i`.
pub open spec fn running_max_ts(msgs: Seq<MessageView>, i: int) -> u64
    decreases i,
{
    if i <= 0 {
        msgs[0].timestamp
    } else if msgs[i].timestamp >= running_max_ts(msgs, i - 1) {
        msgs[i].timestamp
    } else {
        running_max_ts(msgs, i - 1)
    }
}

/// The time index a log of `msgs` messages calls for: one entry per sampled
/// message, holding the largest timestamp observed up to it (timestamps are
/// taken as observed; the log never reorders them) and its offset.
pub open spec fn ideal_time_index(msgs: Seq<MessageView>, start: u64, interval: nat) -> Seq<
    TimeEntry,
>
    decreases msgs.len(),
{
    if msgs.len() == 0 {
        Seq::empty()
    } else {
        let prev = ideal_time_index(msgs.drop_last(), start, interval);
        if ((msgs.len() - 1) as nat) % interval == 0 {
            prev.push(
                TimeEntry {
                    timestamp: running_max_ts(msgs, msgs.len() - 1),
                    offset: (start + msgs.len() - 1) as u64,
                },
            )
        } else {
            prev
        }
    }
}

/// Appending a message does not change the running maximum at older indices.
pub proof fn lemma_running_max_push(msgs: Seq<MessageView>, m: MessageView, i: int)
    requires
        0 <= i < msgs.len(),
    ensures
        running_max_ts(msgs.push(m), i) == running_max_ts(msgs, i),
    decreases i,
{
    if i > 0 {
        lemma_running_max_push(msgs, m, i - 1);
    }
}

/// Shape of the ideal offset index: entry `k` describes the message at
/// relative index `k * interval`, and the samples reach every message.
pub proof fn lemma_ideal_offset_entries(msgs: Seq<MessageView>, start: u64, interval: nat)
    requires
        interval >= 1,
        start + msgs.len() <= u64::MAX,
        spec_batch_size(msgs) <= u64::MAX,
    ensures
        ({
            let idx = ideal_offset_index(msgs, start, interval);
            &&& (msgs.len() == 0 <==> idx.len() == 0)
            &&& msgs.len() > 0 ==> (idx.len() - 1) * interval <= msgs.len() - 1 < idx.len()
                * interval
            &&& forall|k: int|
                0 <= k < idx.len() ==> (#[trigger] idx[k]).offset == start + k * interval
                    && idx[k].position == spec_batch_size(
                    msgs.subrange(0, k * interval),
                ) as u64 && k * interval < msgs.len()
        }),
    decreases msgs.len(),
{
    let idx = ideal_offset_index(msgs, start, interval);
    if msgs.len() > 0 {
        let d = msgs.drop_last();
        let c = msgs.len() - 1;
        lemma_ideal_offset_entries(d, start, interval);
        let prev = ideal_offset_index(d, start, interval);
        assert(spec_batch_size(d) <= spec_batch_size(msgs)) by {
            assert(d =~= msgs.subrange(0, c));
            crate::message::lemma_batch_size_prefix(msgs, c);
        }
        assert forall|k: int| 0 <= k < prev.len() implies #[trigger] prev[k].position
            == spec_batch_size(msgs.subrange(0, k * interval)) as u64 by {
            assert(prev[k].offset == start + k * interval);
            assert(k * interval < d.len());
            assert(d.subrange(0, k * interval) =~= msgs.subrange(0, k * interval));
        }
        if (c as nat) % interval == 0 {
            let kk = prev.len() as int;
            if c == 0 {
                assert(kk == 0);
                assert(c == kk * interval) by (nonlinear_arith)
                    requires
                        c == 0,
                        kk == 0,
                ;
            } else {
                assert((kk - 1) * interval <= c - 1 < kk * interval);
                lemma_fundamental_div_mod(c, interval as int);
                lemma_mod_bound(c, interval as int);
                let q = c / (interval as int);
                assert(c % (interval as int) == 0);
                assert(c == (interval as int) * q);
                assert(q == kk) by (nonlinear_arith)
                    requires
                        c == (interval as int) * q,
                        (kk - 1) * interval <= c - 1,
                        c - 1 < kk * interval,
                        interval >= 1,
                ;
                assert(c == kk * interval) by (nonlinear_arith)
                    requires
                        c == (interval as int) * q,
                        q == kk,
                ;
            }
            assert(idx == prev.push(
                IndexEntry { offset: (start + c) as u64, position: spec_batch_size(d) as u64 },
            ));
            assert(d =~= msgs.subrange(0, kk * interval));
            assert(c < idx.len() * interval) by (nonlinear_arith)
                requires
                    c == (idx.len() - 1) * interval,
                    interval >= 1,
            ;
        } else {
            // Relative index 0 is always sampled, so here `c >= 1`.
            assert((0 as nat) % interval == 0) by (nonlinear_arith)
                requires
                    interval >= 1,
            ;
            assert(c >= 1);
            let kl = idx.len() as int;
            assert((kl - 1) * interval <= c - 1);
            if c == kl * interval {
                assert((c as nat) % interval == 0) by (nonlinear_arith)
                    requires
                        c == kl * interval,
                        interval >= 1,
                        c >= 1,
                ;
                assert(false);
            }
            assert(c < kl * interval);
        }
    }
}

/// Shape of the ideal time index: every entry's offset lies within the
/// segment, and entry `k` samples the message at relative index
/// `k * interval` with the running maximum timestamp there.
pub proof fn lemma_ideal_time_entries(msgs: Seq<MessageView>, start: u64, interval: nat)
    requires
        interval >= 1,
        start + msgs.len() <= u64::MAX,
        spec_batch_size(msgs) <= u64::MAX,
    ensures
        ({
            let idx = ideal_time_index(msgs, start, interval);
            &&& idx.len() == ideal_offset_index(msgs, start, interval).len()
            &&& forall|k: int|
                0 <= k < idx.len() ==> (#[trigger] idx[k]).offset == start + k * interval && k
                    * interval < msgs.len() && idx[k].timestamp == running_max_ts(
                    msgs,
                    k * interval,
                )
        }),
    decreases msgs.len(),
{
    if msgs.len() > 0 {
        let d = msgs.drop_last();
        let c = msgs.len() - 1;
        assert(spec_batch_size(d) <= spec_batch_size(msgs)) by {
            assert(d =~= msgs.subrange(0, c));
            crate::message::lemma_batch_size_prefix(msgs, c);
        }
        lemma_ideal_time_entries(d, start, interval);
        lemma_ideal_offset_entries(d, start, interval);
        lemma_ideal_offset_entries(msgs, start, interval);
        let prev = ideal_time_index(d, start, interval);
        assert forall|k: int| 0 <= k < prev.len() implies #[trigger] prev[k].timestamp
            == running_max_ts(msgs, k * interval) by {
            assert(prev[k].offset == start + k * interval);
            assert(k * interval < d.len());
            assert(msgs =~= d.push(msgs.last()));
            lemma_running_max_push(d, msgs.last(), k * interval);
        }
        if (c as nat) % interval == 0 {
            let kk = prev.len() as int;
            assert(ideal_offset_index(msgs, start, interval).len() == ideal_offset_index(
                d,
                start,
                interval,
            ).len() + 1);
            assert(ideal_offset_index(msgs, start, interval)[kk].offset == start + kk * interval);
            assert((start + c) as u64 == start + kk * interval);
        }
    }
}

// ---------------------------------------------------------------------------
// Scanning for corruption
// ---------------------------------------------------------------------------

/// Least index in `[lo, hi)` holding a message whose stored checksum does
/// not match its content, if any.
pub open spec fn first_invalid(s: Seq<MessageView>, lo: int, hi: int) -> Option<int>
    decreases hi - lo,
{
    if lo < 0 || lo >= hi || hi > s.len() {
        None
    } else if !stored_valid(s[lo]) {
        Some(lo)
    } else {
        first_invalid(s, lo + 1, hi)
    }
}

/// What `first_invalid` returns, pointwise.
pub proof fn lemma_first_invalid_char(s: Seq<MessageView>, lo: int, hi: int)
    requires
        0 <= lo <= hi <= s.len(),
    ensures
        (match first_invalid(s, lo, hi) {
            Some(j) => lo <= j < hi && !stored_valid(s[j]) && forall|t: int|
                lo <= t < j ==> #[trigger] stored_valid(s[t]),
            None => forall|t: int| lo <= t < hi ==> #[trigger] stored_valid(s[t]),
        }),
    decreases hi - lo,
{
    if lo < hi && stored_valid(s[lo]) {
        lemma_first_invalid_char(s, lo + 1, hi);
    }
}


/// Least index at or after `lo` whose message's timestamp reaches `ts`.
pub open spec fn first_at_or_after(s: Seq<MessageView>, lo: int, ts: u64) -> Option<int>
    decreases s.len() - lo,
{
    if lo < 0 || lo >= s.len() {
        None
    } else if s[lo].timestamp >= ts {
        Some(lo)
    } else {
        first_at_or_after(s, lo + 1, ts)
    }
}


/// Each message's timestamp is at most the running maximum at or after it.
pub proof fn lemma_running_max_dominates(msgs: Seq<MessageView>, i: int, t: int)
    requires
        0 <= t <= i < msgs.len(),
    ensures
        msgs[t].timestamp <= running_max_ts(msgs, i),
    decreases i,
{
    if t < i {
        lemma_running_max_dominates(msgs, i - 1, t);
    }
}

/// Messages that cannot reach `ts` do not change where the scan lands.
pub proof fn lemma_first_at_skip(s: Seq<MessageView>, a: int, b: int, ts: u64)
    requires
        0 <= a <= b <= s.len(),
        forall|t: int| a <= t < b ==> (#[trigger] s[t]).timestamp < ts,
    ensures
        first_at_or_after(s, a, ts) == first_at_or_after(s, b, ts),
    decreases b - a,
{
    if a < b {
        lemma_first_at_skip(s, a + 1, b, ts);
    }
}

// ---------------------------------------------------------------------------
// The segment
// ---------------------------------------------------------------------------

impl Segment {
    /// The stored messages, as their models.
    pub open spec fn views(self) -> Seq<MessageView> {
        message_views(self.messages@)
    }

    /// Number of stored messages.
    pub open spec fn count(self) -> nat {
        self.messages@.len()
    }

    /// One past the offset of the last stored message.
    pub open spec fn end_offset(self) -> int {
        self.start_offset + self.count()
    }

    /// The cached side structures have exactly their ideal shape: both
    /// sparse indexes, the running maximum timestamp, and the fact that
    /// every stored message passed validation. Opaque: only the segment's
    /// own operations look inside.
    #[verifier::opaque]
    pub open spec fn cached_state_ok(self) -> bool {
        &&& self.offset_index@ == ideal_offset_index(
            self.views(),
            self.start_offset,
            self.config.index_interval as nat,
        )
        &&& self.time_index@ == ideal_time_index(
            self.views(),
            self.start_offset,
            self.config.index_interval as nat,
        )
        &&& self.count() > 0 ==> self.max_timestamp == running_max_ts(
            self.views(),
            self.count() - 1,
        )
        &&& forall|i: int|
            0 <= i < self.views().len() ==> #[trigger] message_error(
                self.views()[i],
                self.config,
            ) is None
    }

    /// Structural invariant: sizes add up and stay under the cap, an open
    /// segment has room left, offsets fit the offset space, and the cached
    /// side structures have their ideal shape.
    pub open spec fn wf(self) -> bool {
        &&& self.config.wf()
        &&& self.start_offset + self.count() <= u64::MAX
        &&& self.current_size == spec_batch_size(self.views())
        &&& self.current_size <= self.config.max_size
        &&& !self.closed ==> self.current_size < self.config.max_size
        &&& self.cached_state_ok()
    }

    /// Everything but `closed` is unchanged.
    pub open spec fn unchanged_content(self, other: Segment) -> bool {
        &&& self.start_offset == other.start_offset
        &&& self.current_size == other.current_size
        &&& self.max_timestamp == other.max_timestamp
        &&& self.config == other.config
        &&& self.views() == other.views()
        &&& self.offset_index@ == other.offset_index@
        &&& self.time_index@ == other.time_index@
    }

    /// A fresh, open, empty segment whose first message will take
    /// `start_offset`.
    pub fn create(start_offset: u64, config: StorageConfig) -> (s: Segment)
        requires
            config.wf(),
        ensures
            s.wf(),
            s.start_offset == start_offset,
            s.views() =~= Seq::<MessageView>::empty(),
            s.current_size == 0,
            !s.closed,
            s.config == config,
    {
        let s = Segment {
            start_offset,
            current_size: 0,
            max_timestamp: 0,
            closed: false,
            config,
            messages: Vec::new(),
            offset_index: OffsetIndex::new(),
            time_index: TimeIndex::new(),
        };
        proof {
            reveal(Segment::cached_state_ok);
            assert(s.views() =~= Seq::<MessageView>::empty());
            crate::message::lemma_one_message_fits(config);
        }
        s
    }

    /// Relative index where a read for `offset` starts verifying: the
    /// sampled message at or before it.
    pub open spec fn scan_floor_rel(self, offset: u64) -> int {
        (offset - self.start_offset) / (self.config.index_interval as int) * (
        self.config.index_interval as int)
    }


    /// The scan floor lies between the segment start and the offset itself.
    pub proof fn lemma_scan_floor_bounds(self, offset: u64)
        requires
            self.config.index_interval >= 1,
            self.start_offset <= offset,
        ensures
            0 <= self.scan_floor_rel(offset) <= offset - self.start_offset,
    {
        let i = self.config.index_interval as int;
        let rel = offset - self.start_offset;
        lemma_fundamental_div_mod(rel, i);
        lemma_mod_bound(rel, i);
        assert(0 <= (rel / i) * i <= rel) by (nonlinear_arith)
            requires
                rel == i * (rel / i) + rel % i,
                0 <= rel % i < i,
                rel >= 0,
        ;
    }

    /// What `read` returns, as a function of the segment state: an offset
    /// outside the stored range is rejected; otherwise the scan starts at
    /// the sampled message at or before `offset` and the first corrupt
    /// message in scan range fails the whole read; otherwise the messages
    /// from `offset` on are returned, up to `limit` of them.
    pub open spec fn spec_read(self, offset: u64, limit: usize) -> Result<
        Seq<MessageView>,
        EngineError,
    > {
        if !(self.start_offset <= offset && offset < self.end_offset()) {
            Err(EngineError::InvalidOffset(offset))
        } else {
            let rel = offset - self.start_offset;
            let lo = self.scan_floor_rel(offset);
            let end = if rel + limit <= self.count() {
                rel + limit
            } else {
                self.count() as int
            };
            match first_invalid(self.views(), lo, end) {
                Some(j) => Err(
                    EngineError::InvalidMessageChecksum {
                        found: self.views()[j].checksum,
                        expected: message_checksum(self.views()[j]),
                        offset: (self.start_offset + j) as u64,
                    },
                ),
                None => Ok(self.views().subrange(rel, end)),
            }
        }
    }

    /// The sampled entry resolved for any stored offset is exactly the one
    /// of the enclosing sampling window.
    proof fn lemma_sample_floor(self, offset: u64)
        requires
            self.wf(),
            self.start_offset <= offset < self.end_offset(),
        ensures
            spec_floor(self.offset_index@, offset) matches Some(e) && e.offset == self.start_offset
                + self.scan_floor_rel(offset) && 0 <= self.scan_floor_rel(offset) <= offset
                - self.start_offset,
    {
        reveal(Segment::cached_state_ok);
        let interval = self.config.index_interval as int;
        let rel = offset - self.start_offset;
        let k = rel / interval;
        lemma_fundamental_div_mod(rel, interval);
        lemma_mod_bound(rel, interval);
        assert(k * interval <= rel < (k + 1) * interval) by (nonlinear_arith)
            requires
                rel == interval * k + rel % interval,
                0 <= rel % interval < interval,
        ;
        assert(k >= 0) by (nonlinear_arith)
            requires
                k * interval <= rel,
                0 <= rel,
                interval >= 1,
                rel < (k + 1) * interval,
        ;
        lemma_ideal_offset_entries(
            self.views(),
            self.start_offset,
            self.config.index_interval as nat,
        );
        let idx = self.offset_index@;
        let kl = idx.len() as int;
        assert(rel <= self.count() - 1 < kl * interval);
        assert(k < kl) by (nonlinear_arith)
            requires
                k * interval <= rel,
                rel < kl * interval,
                interval >= 1,
                k >= 0,
        ;
        assert(idx[k].offset == self.start_offset + k * interval);
        assert(idx[k].offset <= offset);
        if k + 1 < kl {
            assert(idx[k + 1].offset == self.start_offset + (k + 1) * interval);
            assert(idx[k + 1].offset > offset);
        }
        assert forall|i: int, j: int|
            #![trigger idx[i], idx[j]]
            0 <= i < j < idx.len() implies idx[i].offset < idx[j].offset by {
            assert(idx[i].offset == self.start_offset + i * interval);
            assert(idx[j].offset == self.start_offset + j * interval);
            lemma_mul_inequality(i + 1, j, interval);
            assert(i * interval + interval == (i + 1) * interval) by (nonlinear_arith);
        }
        lemma_floor_char(idx, offset, k);
        assert(self.scan_floor_rel(offset) == k * interval);
    }


    /// Append a batch to this segment. The whole batch is validated and
    /// either stored in order, each message sealed with its computed
    /// checksum, or rejected without storing anything. A batch that would
    /// straddle the byte cap is refused and closes the segment; a batch
    /// that exactly fills it is stored and then the segment closes. A batch
    /// is accepted if and only if the segment was writable, the batch is
    /// valid, and it fits.
    #[verifier::rlimit(100)]
    pub fn append(&mut self, batch: &Vec<Message>) -> (r: Result<(u64, u64), EngineError>)
        requires
            old(self).wf(),
            old(self).start_offset + old(self).count() + batch@.len() <= u64::MAX,
        ensures
            final(self).wf(),
            final(self).start_offset == old(self).start_offset,
            final(self).config == old(self).config,
            (match r {
                Ok(range) => {
                    &&& !old(self).closed
                    &&& batch_error(message_views(batch@), old(self).config) is None
                    &&& old(self).current_size + spec_batch_size(message_views(batch@)) <= old(
                        self,
                    ).config.max_size
                    &&& range.0 == old(self).start_offset + old(self).count()
                    &&& range.1 == range.0 + batch@.len() - 1
                    &&& final(self).views() == old(self).views() + seal_all(message_views(batch@))
                    &&& final(self).current_size == old(self).current_size + spec_batch_size(
                        message_views(batch@),
                    )
                    &&& final(self).closed == (final(self).current_size
                        == final(self).config.max_size)
                },
                Err(e) => {
                    &&& final(self).unchanged_content(*old(self))
                    &&& (old(self).closed ==> e == EngineError::SegmentClosed && final(self).closed)
                    &&& (!old(self).closed && batch_error(
                        message_views(batch@),
                        old(self).config,
                    ) is Some ==> e == batch_error(message_views(batch@), old(self).config)->Some_0
                        && final(self).closed == old(self).closed)
                    &&& (!old(self).closed && batch_error(
                        message_views(batch@),
                        old(self).config,
                    ) is None ==> e == EngineError::SegmentClosed && old(self).current_size
                        + spec_batch_size(message_views(batch@)) > old(self).config.max_size
                        && final(self).closed)
                },
            }),
    {
        let ghost mv = message_views(batch@);
        proof {
            reveal(Segment::cached_state_ok);
        }
        if self.closed {
            return Err(EngineError::SegmentClosed);
        }
        let total = match validate_batch(batch, &self.config) {
            Ok(t) => t,
            Err(e) => {
                return Err(e);
            },
        };
        if total > self.config.max_size - self.current_size {
            self.closed = true;
            return Err(EngineError::SegmentClosed);
        }
        let first = self.start_offset + self.messages.len() as u64;
        let ghost orig = *self;
        proof {
            reveal(Segment::cached_state_ok);
            lemma_messages_error_none(mv, orig.config);
            assert(mv.subrange(0, 0) =~= Seq::<MessageView>::empty());
            assert(seal_all(mv.subrange(0, 0)) =~= Seq::<MessageView>::empty());
            assert(orig.views() + seal_all(mv.subrange(0, 0)) =~= orig.views());
        }
        let mut i: usize = 0;
        while i < batch.len()
            invariant
                0 <= i <= batch@.len(),
                mv == message_views(batch@),
                batch_error(mv, orig.config) is None,
                orig.wf(),
                !orig.closed,
                orig.start_offset + orig.count() + batch@.len() <= u64::MAX,
                orig.current_size + spec_batch_size(mv) <= orig.config.max_size,
                self.config == orig.config,
                self.start_offset == orig.start_offset,
                self.closed == orig.closed,
                self.views() == orig.views() + seal_all(mv.subrange(0, i as int)),
                self.count() == orig.count() + i,
                self.current_size == orig.current_size + spec_batch_size(mv.subrange(0, i as int)),
                self.current_size == spec_batch_size(self.views()),
                self.offset_index@ == ideal_offset_index(
                    self.views(),
                    self.start_offset,
                    self.config.index_interval as nat,
                ),
                self.time_index@ == ideal_time_index(
                    self.views(),
                    self.start_offset,
                    self.config.index_interval as nat,
                ),
                self.count() > 0 ==> self.max_timestamp == running_max_ts(
                    self.views(),
                    self.count() - 1,
                ),
                forall|t: int|
                    0 <= t < self.views().len() ==> #[trigger] message_error(
                        self.views()[t],
                        self.config,
                    ) is None,
            decreases batch@.len() - i,
        {
            proof {
                lemma_messages_error_none(mv, orig.config);
                assert(mv[i as int] == batch@[i as int]@);
                let ext = mv.subrange(0, i + 1);
                assert(ext.drop_last() =~= mv.subrange(0, i as int));
                assert(ext.last() == mv[i as int]);
                crate::message::lemma_batch_size_prefix(mv, i + 1);
            }
            let r = self.messages.len();
            let m = &batch[i];
            let msize = match validate_message(m, &self.config) {
                Ok(s) => s,
                Err(_) => {
                    proof {
                        assert(false);
                    }
                    vstd::pervasive::unreached()
                },
            };
            let sealed = m.sealed_copy();
            proof {
                assert(sealed@ == seal(mv[i as int]));
                assert(spec_message_size(seal(mv[i as int])) == spec_message_size(mv[i as int]));
                assert(message_error(seal(mv[i as int]), orig.config) == message_error(
                    mv[i as int],
                    orig.config,
                ));
                if r > 0 {
                    lemma_running_max_push(self.views(), sealed@, r - 1);
                }
            }
            let new_max = if r == 0 {
                sealed.timestamp
            } else if sealed.timestamp > self.max_timestamp {
                sealed.timestamp
            } else {
                self.max_timestamp
            };
            self.max_timestamp = new_max;
            let ghost pre_views = self.views();
            if (r as u64) % self.config.index_interval == 0 {
                self.offset_index.entries.push(
                    IndexEntry { offset: self.start_offset + r as u64, position: self.current_size },
                );
                self.time_index.entries.push(
                    TimeEntry { timestamp: new_max, offset: self.start_offset + r as u64 },
                );
            }
            self.messages.push(sealed);
            self.current_size = self.current_size + msize;
            proof {
                let nv = self.views();
                assert(nv =~= pre_views.push(sealed@));
                assert(nv.drop_last() =~= pre_views);
                assert(seal_all(mv.subrange(0, i + 1)) =~= seal_all(
                    mv.subrange(0, i as int),
                ).push(seal(mv[i as int])));
                assert(nv =~= orig.views() + seal_all(mv.subrange(0, i + 1)));
                assert(((nv.len() - 1) as nat) % (self.config.index_interval as nat) == (
                r as u64) % self.config.index_interval);
                assert(spec_batch_size(nv) == spec_batch_size(pre_views) + spec_message_size(
                    sealed@,
                ));
                if r > 0 {
                    assert(running_max_ts(nv, r - 1) == running_max_ts(pre_views, r - 1));
                }
                assert(self.max_timestamp == running_max_ts(nv, nv.len() - 1));
            }
            i = i + 1;
        }
        proof {
            reveal(Segment::cached_state_ok);
            assert(mv.subrange(0, mv.len() as int) =~= mv);
            assert(seal_all(mv.subrange(0, mv.len() as int)) =~= seal_all(mv));
        }
        if self.current_size == self.config.max_size {
            self.closed = true;
        }
        let last = first + (batch.len() as u64 - 1);
        Ok((first, last))
    }

    /// Read up to `limit` messages starting at `offset`, verifying stored
    /// checksums from the nearest sampled entry onward. A checksum mismatch
    /// fails the whole read and names the corrupt offset.
    #[verifier::rlimit(100)]
    pub fn read(&self, offset: u64, limit: usize) -> (r: Result<Vec<Message>, EngineError>)
        requires
            self.wf(),
        ensures
            (match (r, self.spec_read(offset, limit)) {
                (Ok(v), Ok(s)) => message_views(v@) == s,
                (Err(e), Err(se)) => e == se,
                _ => false,
            }),
    {
        if offset < self.start_offset || offset - self.start_offset >= self.messages.len() as u64 {
            return Err(EngineError::InvalidOffset(offset));
        }
        let rel = (offset - self.start_offset) as usize;
        proof {
            self.lemma_sample_floor(offset);
        }
        let lo = match self.offset_index.lookup(offset) {
            Some(e) => (e.offset - self.start_offset) as usize,
            None => 0,
        };
        let end = if limit <= self.messages.len() - rel {
            rel + limit
        } else {
            self.messages.len()
        };
        let mut out: Vec<Message> = Vec::new();
        let mut j: usize = lo;
        while j < end
            invariant
                0 <= lo <= j <= end <= self.messages@.len(),
                lo <= rel <= end,
                self.wf(),
                self.start_offset <= offset < self.end_offset(),
                rel == offset - self.start_offset,
                lo as int == self.scan_floor_rel(offset),
                end as int == (if rel + limit <= self.count() {
                    rel as int + limit
                } else {
                    self.count() as int
                }),
                first_invalid(self.views(), lo as int, j as int) is None,
                j <= rel ==> out@.len() == 0,
                j > rel ==> message_views(out@) == self.views().subrange(rel as int, j as int),
            decreases end - j,
        {
            let m = &self.messages[j];
            let computed = compute_checksum(m.id, m.timestamp, &m.headers, &m.payload);
            proof {
                assert(self.views()[j as int] == self.messages@[j as int]@);
            }
            if m.checksum != computed {
                proof {
                    lemma_first_invalid_char(self.views(), lo as int, j as int);
                    lemma_first_invalid_char(self.views(), lo as int, end as int);
                    assert(!stored_valid(self.views()[j as int]));
                    let fi = first_invalid(self.views(), lo as int, end as int);
                    assert(fi is Some);
                    let fj = fi->Some_0;
                    assert(stored_valid(self.views()[fj]) ==> false);
                    assert(fj <= j);
                    assert(fj >= j);
                }
                return Err(
                    EngineError::InvalidMessageChecksum {
                        found: m.checksum,
                        expected: computed,
                        offset: self.start_offset + j as u64,
                    },
                );
            }
            if j >= rel {
                out.push(m.duplicate());
                proof {
                    assert(message_views(out@) =~= self.views().subrange(rel as int, j + 1));
                }
            }
            proof {
                lemma_first_invalid_char(self.views(), lo as int, j as int);
                lemma_first_invalid_char(self.views(), lo as int, j + 1);
            }
            j = j + 1;
        }
        proof {
            lemma_first_invalid_char(self.views(), lo as int, end as int);
            if rel == end {
                assert(message_views(out@) =~= self.views().subrange(rel as int, end as int));
            }
        }
        Ok(out)
    }

    /// Where a timestamp lookup resolves: the time index narrows the start
    /// to the sampled offset at or before `ts`, and the scan forward from
    /// there finds the first message whose timestamp reaches `ts`.
    pub open spec fn spec_lookup_ts(self, ts: u64) -> Option<u64> {
        let lo = match spec_time_floor(self.time_index@, ts) {
            Some(e) => e.offset - self.start_offset,
            None => 0,
        };
        match first_at_or_after(self.views(), lo, ts) {
            Some(j) => Some((self.start_offset + j) as u64),
            None => None,
        }
    }

    /// Resolve a timestamp to the offset of the first message at or after
    /// the narrowed starting point whose timestamp reaches `ts`.
    pub fn lookup_by_timestamp(&self, ts: u64) -> (r: Option<u64>)
        requires
            self.wf(),
        ensures
            r == self.spec_lookup_ts(ts),
    {
        proof {
            reveal(Segment::cached_state_ok);
            lemma_ideal_time_entries(
                self.views(),
                self.start_offset,
                self.config.index_interval as nat,
            );
        }
        let n = self.messages.len();
        let lo: usize = match self.time_index.lookup(ts) {
            Some(e) => {
                proof {
                    crate::index::lemma_time_floor_idx_bounds(self.time_index@, ts);
                    let fi = crate::index::spec_time_floor_idx(self.time_index@, ts);
                    assert(self.time_index@[fi] == e);
                    assert(e.offset == self.start_offset + fi * (
                    self.config.index_interval as nat));
                    assert(fi * (self.config.index_interval as nat) < self.count());
                }
                (e.offset - self.start_offset) as usize
            },
            None => 0,
        };
        let ghost glo = lo as int;
        let mut j: usize = lo;
        while j < n
            invariant
                0 <= glo <= j <= self.messages@.len(),
                n == self.messages@.len(),
                self.wf(),
                glo == (match spec_time_floor(self.time_index@, ts) {
                    Some(e) => e.offset - self.start_offset,
                    None => 0int,
                }),
                first_at_or_after(self.views(), glo, ts) == first_at_or_after(
                    self.views(),
                    j as int,
                    ts,
                ),
            decreases self.messages@.len() - j,
        {
            proof {
                assert(self.views()[j as int] == self.messages@[j as int]@);
            }
            if self.messages[j].timestamp >= ts {
                return Some(self.start_offset + j as u64);
            }
            j = j + 1;
        }
        None
    }
}

/// A segment's accounted size never exceeds its configured cap: a batch
/// that would straddle the cap is refused whole, never split.
pub proof fn lemma_segment_size_bounded(s: Segment)
    requires
        s.wf(),
    ensures
        s.current_size <= s.config.max_size,
{
}

/// A well-formed segment's offset index meets the index invariant:
/// strictly increasing in offset and in position.
pub proof fn lemma_segment_offset_index_wf(s: Segment)
    requires
        s.wf(),
    ensures
        s.offset_index.wf(),
{
    reveal(Segment::cached_state_ok);
    let interval = s.config.index_interval as nat;
    lemma_ideal_offset_entries(s.views(), s.start_offset, interval);
    let idx = s.offset_index@;
    assert forall|i: int, j: int|
        #![trigger idx[i], idx[j]]
        0 <= i < j < idx.len() implies idx[i].offset < idx[j].offset && idx[i].position
        < idx[j].position by {
        assert(idx[i].offset == s.start_offset + i * interval);
        assert(idx[j].offset == s.start_offset + j * interval);
        assert(i * interval < j * interval) by (nonlinear_arith)
            requires
                0 <= i < j,
                interval >= 1,
        ;
        let a = s.views().subrange(0, i * interval);
        let b = s.views().subrange(0, j * interval);
        assert(b =~= a + s.views().subrange(i * interval, j * interval));
        lemma_batch_size_concat(a, s.views().subrange(i * interval, j * interval));
        let mid = s.views().subrange(i * interval, j * interval);
        assert(mid.len() > 0);
        assert(spec_batch_size(mid) > 0);
        crate::message::lemma_batch_size_prefix(s.views(), j * interval);
    }
}

/// Closing a segment preserves its invariant; nothing else changes.
pub proof fn lemma_close_preserves_wf(a: Segment, b: Segment)
    requires
        a.wf(),
        b == (Segment { closed: true, ..a }),
    ensures
        b.wf(),
{
    reveal(Segment::cached_state_ok);
}

/// Locate the first corrupt index: a corrupt position with a clean run
/// before it is exactly what `first_invalid` returns.
pub proof fn lemma_first_invalid_locate(s: Seq<MessageView>, lo: int, hi: int, j: int)
    requires
        0 <= lo <= j < hi <= s.len(),
        !stored_valid(s[j]),
        forall|t: int| lo <= t < j ==> stored_valid(#[trigger] s[t]),
    ensures
        first_invalid(s, lo, hi) == Some(j),
{
    lemma_first_invalid_char(s, lo, hi);
    let fi = first_invalid(s, lo, hi);
    if fi is None {
    } else {
        let fj = fi->Some_0;
        assert(fj <= j);
        assert(j <= fj);
    }
}

/// The time index only narrows the starting point: because it narrows with
/// the last sampled running maximum strictly below `ts`, every message
/// before the narrowed start has a smaller timestamp, so the lookup
/// resolves the globally first message whose timestamp reaches `ts`.
pub proof fn lemma_lookup_ts_global(s: Segment, ts: u64)
    requires
        s.wf(),
    ensures
        s.spec_lookup_ts(ts) == (match first_at_or_after(s.views(), 0, ts) {
            Some(j) => Some((s.start_offset + j) as u64),
            None => None::<u64>,
        }),
{
    reveal(Segment::cached_state_ok);
    lemma_ideal_time_entries(s.views(), s.start_offset, s.config.index_interval as nat);
    match spec_time_floor(s.time_index@, ts) {
        Some(e) => {
            crate::index::lemma_time_floor_idx_bounds(s.time_index@, ts);
            let fi = crate::index::spec_time_floor_idx(s.time_index@, ts);
            assert(s.time_index@[fi] == e);
            let lo = e.offset - s.start_offset;
            assert(e.timestamp == running_max_ts(s.views(), lo));
            assert forall|t: int| 0 <= t < lo implies (#[trigger] s.views()[t]).timestamp
                < ts by {
                lemma_running_max_dominates(s.views(), lo, t);
            }
            lemma_first_at_skip(s.views(), 0, lo, ts);
        },
        None => {},
    }
}

} // verus!
