use vstd::prelude::*;
use crate::config::StorageConfig;
use crate::errors::EngineError;
use crate::message::{
    batch_error, compute_checksum, message_checksum, message_views, seal_all, spec_batch_size,
    stored_valid,
    validate_batch, Message, MessageView,
};
use crate::segment::{first_invalid, lemma_first_invalid_char, Segment};

verus! {

/// One partition: an ordered chain of segments with contiguous offset
/// ranges, and the `next_offset` counter that is the single source of
/// truth for offset assignment.
#[derive(Debug)]
pub struct Partition {
    /// Identifier of this partition within its topic.
    pub partition_id: u32,
    /// The limits all its segments are created under.
    pub config: StorageConfig,
    /// The offset the next appended message will take; equals the number
    /// of messages ever appended.
    pub next_offset: u64,
    /// The segment chain; only the last segment may be open.
    pub segments: Vec<Segment>,
}


/// All messages of a segment chain, in offset order.
pub open spec fn all_views(segs: Seq<Segment>) -> Seq<MessageView>
    decreases segs.len(),
{
    if segs.len() == 0 {
        Seq::empty()
    } else {
        all_views(segs.drop_last()) + segs.last().views()
    }
}

/// Each segment starts exactly where the previous ones end.
pub open spec fn segs_chained(segs: Seq<Segment>) -> bool {
    forall|k: int|
        0 <= k < segs.len() ==> (#[trigger] segs[k]).start_offset == all_views(
            segs.subrange(0, k),
        ).len()
}

/// Index of the last segment whose start offset is at most `offset`.
pub open spec fn seg_floor_idx(segs: Seq<Segment>, offset: u64) -> int
    decreases segs.len(),
{
    if segs.len() == 0 {
        -1
    } else if segs.last().start_offset <= offset {
        segs.len() - 1
    } else {
        seg_floor_idx(segs.drop_last(), offset)
    }
}

/// Total length decomposes over the last segment.
pub proof fn lemma_all_views_last(segs: Seq<Segment>)
    requires
        segs.len() > 0,
        segs_chained(segs),
    ensures
        all_views(segs).len() == segs.last().start_offset + segs.last().views().len(),
{
    assert(segs.subrange(0, segs.len() - 1) =~= segs.drop_last());
}

/// Chaining restricts to any prefix of the chain.
pub proof fn lemma_chained_prefix(segs: Seq<Segment>, n: int)
    requires
        segs_chained(segs),
        0 <= n <= segs.len(),
    ensures
        segs_chained(segs.subrange(0, n)),
{
    let p = segs.subrange(0, n);
    assert forall|k: int| 0 <= k < p.len() implies (#[trigger] p[k]).start_offset == all_views(
        p.subrange(0, k),
    ).len() by {
        assert(p[k] == segs[k]);
        assert(p.subrange(0, k) =~= segs.subrange(0, k));
    }
}

/// A message of one segment is the same message of the whole chain, at the
/// segment's start plus its relative index.
pub proof fn lemma_all_views_index(segs: Seq<Segment>, k: int, g: int)
    requires
        segs_chained(segs),
        0 <= k < segs.len(),
        segs[k].start_offset <= g < segs[k].start_offset + segs[k].views().len(),
    ensures
        segs[k].start_offset + segs[k].views().len() <= all_views(segs).len(),
        all_views(segs)[g] == segs[k].views()[g - segs[k].start_offset],
    decreases segs.len(),
{
    if k == segs.len() - 1 {
        lemma_all_views_last(segs);
        assert(segs.subrange(0, k) =~= segs.drop_last());
    } else {
        let d = segs.drop_last();
        lemma_chained_prefix(segs, segs.len() - 1);
        assert(d =~= segs.subrange(0, segs.len() - 1));
        assert(d[k] == segs[k]);
        lemma_all_views_index(d, k, g);
        assert(all_views(segs) == all_views(d) + segs.last().views());
        assert(all_views(segs)[g] == all_views(d)[g]);
    }
}

/// The floor segment of any stored offset holds it.
pub proof fn lemma_seg_floor_contains(segs: Seq<Segment>, offset: u64)
    requires
        segs_chained(segs),
        offset < all_views(segs).len(),
    ensures
        ({
            let k = seg_floor_idx(segs, offset);
            &&& 0 <= k < segs.len()
            &&& segs[k].start_offset <= offset < segs[k].start_offset + segs[k].views().len()
        }),
    decreases segs.len(),
{
    assert(segs.len() > 0);
    lemma_all_views_last(segs);
    if segs.last().start_offset <= offset {
        assert(segs[segs.len() - 1] == segs.last());
    } else {
        let d = segs.drop_last();
        lemma_chained_prefix(segs, segs.len() - 1);
        assert(d =~= segs.subrange(0, segs.len() - 1));
        assert(offset < all_views(d).len()) by {
            assert(all_views(d).len() == segs.last().start_offset);
        }
        lemma_seg_floor_contains(d, offset);
        let k = seg_floor_idx(d, offset);
        assert(d[k] == segs[k]);
    }
}

/// Characterize the floor segment: it is the one at `k` when its start is
/// at most `offset` and the next one's, if any, is greater.
pub proof fn lemma_seg_floor_char(segs: Seq<Segment>, offset: u64, k: int)
    requires
        forall|i: int, j: int|
            #![trigger segs[i], segs[j]]
            0 <= i < j < segs.len() ==> segs[i].start_offset < segs[j].start_offset,
        0 <= k < segs.len(),
        segs[k].start_offset <= offset,
        k == segs.len() - 1 || segs[k + 1].start_offset > offset,
    ensures
        seg_floor_idx(segs, offset) == k,
    decreases segs.len(),
{
    if k == segs.len() - 1 {
    } else if segs.last().start_offset <= offset {
        assert(segs[k + 1].start_offset <= segs[segs.len() - 1].start_offset);
        assert(false);
    } else {
        let d = segs.drop_last();
        assert(forall|t: int| 0 <= t < d.len() ==> #[trigger] d[t] == segs[t]);
        lemma_seg_floor_char(d, offset, k);
    }
}

impl Partition {
    /// All stored messages, in offset order; message `i` has offset `i`.
    pub open spec fn msgs(self) -> Seq<MessageView> {
        all_views(self.segments@)
    }

    /// Structural invariant: the configuration is shared and well formed,
    /// every segment is well formed, non-empty, and starts exactly where
    /// the previous ones end, only the last segment may be open, and
    /// `next_offset` equals the number of stored messages.
    pub open spec fn wf(self) -> bool {
        &&& self.config.wf()
        &&& forall|k: int| 0 <= k < self.segments@.len() ==> (#[trigger] self.segments@[k]).wf()
        &&& forall|k: int|
            0 <= k < self.segments@.len() ==> (#[trigger] self.segments@[k]).config == self.config
        &&& forall|k: int|
            0 <= k < self.segments@.len() ==> (#[trigger] self.segments@[k]).views().len() > 0
        &&& segs_chained(self.segments@)
        &&& forall|k: int|
            0 <= k < self.segments@.len() - 1 ==> (#[trigger] self.segments@[k]).closed
        &&& self.next_offset == self.msgs().len()
    }

    /// A new, empty partition; its first message will take offset zero.
    pub fn create(partition_id: u32, config: StorageConfig) -> (p: Partition)
        requires
            config.wf(),
        ensures
            p.wf(),
            p.partition_id == partition_id,
            p.config == config,
            p.next_offset == 0,
            p.msgs() =~= Seq::<MessageView>::empty(),
    {
        let p = Partition { partition_id, config, next_offset: 0, segments: Vec::new() };
        proof {
            assert(p.segments@.len() == 0);
            assert(p.msgs() =~= Seq::<MessageView>::empty());
        }
        p
    }


    /// The state right after rollover: a well-formed chain whose last
    /// segment is open and has room for `total` more accounted bytes; all
    /// earlier segments are closed and non-empty.
    pub open spec fn appendable(self, total: u64) -> bool {
        &&& self.config.wf()
        &&& self.segments@.len() > 0
        &&& forall|k: int| 0 <= k < self.segments@.len() ==> (#[trigger] self.segments@[k]).wf()
        &&& forall|k: int|
            0 <= k < self.segments@.len() ==> (#[trigger] self.segments@[k]).config == self.config
        &&& forall|k: int|
            0 <= k < self.segments@.len() - 1 ==> (#[trigger] self.segments@[k]).views().len() > 0
        &&& segs_chained(self.segments@)
        &&& forall|k: int|
            0 <= k < self.segments@.len() - 1 ==> (#[trigger] self.segments@[k]).closed
        &&& !self.segments@.last().closed
        &&& self.segments@.last().current_size + total <= self.config.max_size
        &&& self.next_offset == self.msgs().len()
    }

    /// Close the active segment if it cannot take `total` more bytes (or
    /// none exists), and open a fresh one at `next_offset`. Stores and
    /// assigns nothing by itself.
    #[verifier::rlimit(100)]
    #[verifier::spinoff_prover]
    fn ensure_room(&mut self, total: u64)
        requires
            old(self).wf(),
            total <= old(self).config.max_size,
        ensures
            final(self).appendable(total),
            final(self).msgs() == old(self).msgs(),
            final(self).next_offset == old(self).next_offset,
            final(self).config == old(self).config,
            final(self).partition_id == old(self).partition_id,
    {
        let ghost orig = *self;
        let need_new = if self.segments.len() == 0 {
            true
        } else {
            let last = &self.segments[self.segments.len() - 1];
            last.closed || total > self.config.max_size - last.current_size
        };
        if !need_new {
            return ;
        }
        if self.segments.len() > 0 {
            proof {
                lemma_chained_prefix(orig.segments@, orig.segments@.len() - 1);
                lemma_all_views_last(orig.segments@);
            }
            let mut last = match self.segments.pop() {
                Some(sg) => sg,
                None => vstd::pervasive::unreached(),
            };
            let ghost before = last;
            let ghost tail = self.segments@;
            last.closed = true;
            self.segments.push(last);
            proof {
                assert(tail =~= orig.segments@.subrange(0, orig.segments@.len() - 1));
                crate::segment::lemma_close_preserves_wf(before, self.segments@.last());
                lemma_views_push(tail, self.segments@.last());
                assert(self.segments@ =~= tail.push(self.segments@.last()));
                assert(orig.segments@[orig.segments@.len() - 1].start_offset == all_views(
                    orig.segments@.subrange(0, orig.segments@.len() - 1),
                ).len());
                assert(self.segments@.last().start_offset == all_views(tail).len());
                assert(segs_chained(self.segments@.drop_last())) by {
                    assert(self.segments@.drop_last() =~= tail);
                }
                lemma_chained_push(self.segments@, all_views(tail).len() as int);
                assert(all_views(self.segments@) =~= orig.msgs());
            }
        }
        let ghost mid = *self;
        let seg = Segment::create(self.next_offset, self.config);
        self.segments.push(seg);
        proof {
            assert(self.segments@.drop_last() =~= mid.segments@);
            lemma_views_push(mid.segments@, seg);
            assert(self.segments@ =~= mid.segments@.push(seg));
            assert(all_views(self.segments@) =~= orig.msgs());
            lemma_chained_push(self.segments@, orig.msgs().len() as int);
            assert(forall|k: int|
                0 <= k < mid.segments@.len() ==> #[trigger] self.segments@[k] == mid.segments@[k]);
        }
    }

    /// Append a batch to this partition. The batch is validated first and
    /// rejected without any change on failure. On success the active
    /// segment takes it whole; if there is none, or it is closed or too
    /// full, the active segment is closed and a new one opens at
    /// `next_offset`, so a batch is never split across segments. Succeeds
    /// if and only if the batch is valid, and assigns exactly the offsets
    /// `next_offset .. next_offset + n`.
    #[verifier::rlimit(100)]
    pub fn append(&mut self, batch: &Vec<Message>) -> (r: Result<(u64, u64), EngineError>)
        requires
            old(self).wf(),
            old(self).next_offset + batch@.len() <= u64::MAX,
        ensures
            final(self).wf(),
            final(self).config == old(self).config,
            final(self).partition_id == old(self).partition_id,
            (match r {
                Ok(range) => {
                    &&& batch_error(message_views(batch@), old(self).config) is None
                    &&& range.0 == old(self).next_offset
                    &&& range.1 == range.0 + batch@.len() - 1
                    &&& final(self).next_offset == old(self).next_offset + batch@.len()
                    &&& final(self).msgs() == old(self).msgs() + seal_all(message_views(batch@))
                },
                Err(e) => {
                    &&& batch_error(message_views(batch@), old(self).config) == Some(e)
                    &&& final(self).msgs() == old(self).msgs()
                    &&& final(self).next_offset == old(self).next_offset
                },
            }),
    {
        let ghost orig = *self;
        let total = match validate_batch(batch, &self.config) {
            Ok(t) => t,
            Err(e) => {
                return Err(e);
            },
        };
        self.ensure_room(total);
        let ghost pre = *self;
        proof {
            lemma_all_views_last(self.segments@);
            lemma_chained_prefix(self.segments@, self.segments@.len() - 1);
        }
        let mut seg = match self.segments.pop() {
            Some(sg) => sg,
            None => vstd::pervasive::unreached(),
        };
        let ghost chain = self.segments@;
        let res = seg.append(batch);
        self.segments.push(seg);
        match res {
            Ok(range) => {
                proof {
                    assert(self.segments@.drop_last() =~= chain);
                    assert(chain =~= pre.segments@.subrange(0, pre.segments@.len() - 1));
                    lemma_views_push(chain, self.segments@.last());
                    assert(self.segments@ =~= chain.push(self.segments@.last()));
                    assert(all_views(self.segments@) =~= orig.msgs() + seal_all(
                        message_views(batch@),
                    ));
                    lemma_chained_push(self.segments@, self.segments@.last().start_offset as int);
                    assert(seal_all(message_views(batch@)).len() == message_views(batch@).len());
                }
                self.next_offset = self.next_offset + batch.len() as u64;
                Ok(range)
            },
            Err(_) => {
                proof {
                    assert(false);
                }
                vstd::pervasive::unreached()
            },
        }
    }


    /// Global index where a read for `offset` starts verifying checksums:
    /// the sampled message at or before `offset` within its segment.
    pub open spec fn spec_scan_floor(self, offset: u64) -> int {
        let k = seg_floor_idx(self.segments@, offset);
        self.segments@[k].start_offset + self.segments@[k].scan_floor_rel(offset)
    }

    /// What `read` returns, as a function of the partition state: an offset
    /// at or past `next_offset` finds no segment; otherwise checksums are
    /// verified from the sampled message at or before `offset` through the
    /// end of the read, the first corrupt message failing the whole read,
    /// and the messages from `offset` on are returned, up to `limit` of
    /// them, stitched across segments.
    pub open spec fn spec_read(self, offset: u64, limit: usize) -> Result<
        Seq<MessageView>,
        EngineError,
    > {
        if offset >= self.next_offset {
            Err(EngineError::SegmentNotFound)
        } else {
            let lo = self.spec_scan_floor(offset);
            let end = if offset + limit <= self.next_offset {
                offset + limit
            } else {
                self.next_offset as int
            };
            match first_invalid(self.msgs(), lo, end) {
                Some(j) => Err(
                    EngineError::InvalidMessageChecksum {
                        found: self.msgs()[j].checksum,
                        expected: message_checksum(self.msgs()[j]),
                        offset: j as u64,
                    },
                ),
                None => Ok(self.msgs().subrange(offset as int, end)),
            }
        }
    }

    /// Locate, by binary search, the segment that holds `offset`.
    #[verifier::rlimit(100)]
    #[verifier::spinoff_prover]
    fn locate(&self, offset: u64) -> (k: usize)
        requires
            self.wf(),
            offset < self.next_offset,
        ensures
            k as int == seg_floor_idx(self.segments@, offset),
            0 <= k < self.segments@.len(),
            self.segments@[k as int].start_offset <= offset < self.segments@[k as int].start_offset
                + self.segments@[k as int].views().len(),
    {
        proof {
            if self.segments@.len() == 0 {
                assert(self.msgs() =~= Seq::<MessageView>::empty());
            }
            lemma_seg_floor_contains(self.segments@, offset);
            lemma_starts_strict(self.segments@);
            assert(self.segments@[0].start_offset == 0) by {
                assert(self.segments@.subrange(0, 0) =~= Seq::<Segment>::empty());
            }
        }
        let mut a: usize = 0;
        let mut b: usize = self.segments.len();
        while b - a > 1
            invariant
                0 <= a < b <= self.segments@.len(),
                self.wf(),
                offset < self.next_offset,
                self.segments@[a as int].start_offset <= offset,
                b == self.segments@.len() || self.segments@[b as int].start_offset > offset,
            decreases b - a,
        {
            let mid = a + (b - a) / 2;
            if self.segments[mid].start_offset <= offset {
                a = mid;
            } else {
                b = mid;
            }
        }
        proof {
            lemma_starts_strict(self.segments@);
            lemma_seg_floor_char(self.segments@, offset, a as int);
            lemma_seg_floor_contains(self.segments@, offset);
        }
        a
    }

    /// Fetch the message stored at a global offset.
    #[verifier::rlimit(100)]
    fn message_at(&self, g: u64) -> (m: &Message)
        requires
            self.wf(),
            g < self.next_offset,
        ensures
            m@ == self.msgs()[g as int],
    {
        let k = self.locate(g);
        let seg = &self.segments[k];
        let n = seg.messages.len();
        proof {
            lemma_all_views_index(self.segments@, k as int, g as int);
            assert(seg.views()[g - seg.start_offset] == seg.messages@[g - seg.start_offset]@);
        }
        &seg.messages[(g - seg.start_offset) as usize]
    }

    /// Read up to `limit` messages starting at `offset`, stitched across
    /// segment boundaries; each message is located by binary search over
    /// the segment chain. Checksums are verified from the sampled message
    /// at or before `offset` onward, and a mismatch anywhere in scan range
    /// fails the whole read, naming the corrupt offset.
    #[verifier::rlimit(100)]
    pub fn read(&self, offset: u64, limit: usize) -> (r: Result<Vec<Message>, EngineError>)
        requires
            self.wf(),
        ensures
            (match (r, self.spec_read(offset, limit)) {
                (Ok(v), Ok(s)) => message_views(v@) == s,
                (Err(e), Err(se)) => e == se,
                _ => false,
            }),
    {
        if offset >= self.next_offset {
            return Err(EngineError::SegmentNotFound);
        }
        let k = self.locate(offset);
        let seg = &self.segments[k];
        let interval = seg.config.index_interval;
        proof {
            seg.lemma_scan_floor_bounds(offset);
        }
        let lo: u64 = seg.start_offset + (offset - seg.start_offset) / interval * interval;
        let end: u64 = if (limit as u64) <= self.next_offset - offset {
            offset + limit as u64
        } else {
            self.next_offset
        };
        let ghost glo = self.spec_scan_floor(offset);
        let ghost gend: int = if offset + limit <= self.next_offset {
            offset + limit
        } else {
            self.next_offset as int
        };
        proof {
            assert(glo == lo as int);
            assert(gend == end as int);
        }
        let mut out: Vec<Message> = Vec::new();
        let mut g: u64 = lo;
        while g < end
            invariant
                self.wf(),
                offset < self.next_offset,
                0 <= glo <= g <= end,
                glo <= offset < end || (glo <= offset && end == offset),
                glo == lo as int,
                gend == end as int,
                gend <= self.next_offset,
                glo == self.spec_scan_floor(offset),
                gend == (if offset + limit <= self.next_offset {
                    offset + limit as int
                } else {
                    self.next_offset as int
                }),
                forall|t: int| glo <= t < g ==> stored_valid(#[trigger] self.msgs()[t]),
                g <= offset ==> out@.len() == 0,
                g > offset ==> offset + out@.len() == g,
                forall|i: int|
                    0 <= i < out@.len() ==> (#[trigger] out@[i])@ == self.msgs()[offset + i],
            decreases end - g,
        {
            let m = self.message_at(g);
            let computed = compute_checksum(m.id, m.timestamp, &m.headers, &m.payload);
            if m.checksum != computed {
                proof {
                    assert(!stored_valid(self.msgs()[g as int]));
                    crate::segment::lemma_first_invalid_locate(self.msgs(), glo, gend, g as int);
                }
                return Err(
                    EngineError::InvalidMessageChecksum {
                        found: m.checksum,
                        expected: computed,
                        offset: g,
                    },
                );
            }
            if g >= offset {
                let copy = m.duplicate();
                out.push(copy);
            }
            g = g + 1;
        }
        proof {
            lemma_first_invalid_char(self.msgs(), glo, gend);
            if offset < end {
                assert(message_views(out@) =~= self.msgs().subrange(offset as int, gend));
            } else {
                assert(message_views(out@) =~= self.msgs().subrange(offset as int, gend));
            }
        }
        Ok(out)
    }

    /// Number of segments in the chain.
    pub fn get_segments_count(&self) -> (n: usize)
        ensures
            n == self.segments@.len(),
    {
        self.segments.len()
    }

    /// Accounted bytes stored over all segments.
    pub fn get_size(&self) -> (n: u128)
        requires
            self.wf(),
        ensures
            n == self.spec_size(),
    {
        let ghost cap: int = 0xffffffffffffffff;
        let mut total: u128 = 0;
        let mut i: usize = 0;
        while i < self.segments.len()
            invariant
                0 <= i <= self.segments@.len(),
                cap == 0xffffffffffffffff,
                total == spec_size_prefix(self.segments@, i as int),
                total <= i as int * cap,
            decreases self.segments@.len() - i,
        {
            proof {
                assert((i as int + 1) * cap == i as int * cap + cap) by (nonlinear_arith);
                vstd::arithmetic::mul::lemma_mul_inequality(i as int + 1, cap, cap);
                assert(cap * cap < 0x100000000000000000000000000000000) by (nonlinear_arith)
                    requires
                        cap == 0xffffffffffffffff,
                ;
            }
            total = total + self.segments[i].current_size as u128;
            i = i + 1;
        }
        total
    }

    /// Accounted bytes stored over all segments.
    pub open spec fn spec_size(self) -> int {
        spec_size_prefix(self.segments@, self.segments@.len() as int)
    }
}

/// Sum of the accounted sizes of the first `n` segments.
pub open spec fn spec_size_prefix(segs: Seq<Segment>, n: int) -> int
    decreases n,
{
    if n <= 0 {
        0
    } else {
        spec_size_prefix(segs, n - 1) + segs[n - 1].current_size
    }
}

/// Appending a segment appends its messages.
pub proof fn lemma_views_push(segs: Seq<Segment>, sg: Segment)
    ensures
        all_views(segs.push(sg)) == all_views(segs) + sg.views(),
{
    assert(segs.push(sg).drop_last() =~= segs);
}

/// A chain stays chained when a segment is appended right at its end.
pub proof fn lemma_chained_push(segs: Seq<Segment>, start: int)
    requires
        segs.len() > 0,
        segs_chained(segs.drop_last()),
        segs.last().start_offset == start,
        start == all_views(segs.drop_last()).len(),
    ensures
        segs_chained(segs),
{
    assert forall|k: int| 0 <= k < segs.len() implies (#[trigger] segs[k]).start_offset
        == all_views(segs.subrange(0, k)).len() by {
        if k < segs.len() - 1 {
            assert(segs.drop_last()[k] == segs[k]);
            assert(segs.subrange(0, k) =~= segs.drop_last().subrange(0, k));
        } else {
            assert(segs.subrange(0, k) =~= segs.drop_last());
        }
    }
}

/// The chain's prefix length grows by exactly one segment's messages.
pub proof fn lemma_cnt_extend(segs: Seq<Segment>, k: int)
    requires
        0 <= k < segs.len(),
    ensures
        all_views(segs.subrange(0, k + 1)) == all_views(segs.subrange(0, k)) + segs[k].views(),
{
    assert(segs.subrange(0, k + 1).drop_last() =~= segs.subrange(0, k));
    assert(segs.subrange(0, k + 1).last() == segs[k]);
}

/// Prefix lengths grow strictly across non-empty segments.
pub proof fn lemma_cnt_mono(segs: Seq<Segment>, i: int, j: int)
    requires
        0 <= i < j <= segs.len(),
        forall|k: int| 0 <= k < segs.len() ==> (#[trigger] segs[k]).views().len() > 0,
    ensures
        all_views(segs.subrange(0, i)).len() + segs[i].views().len() <= all_views(
            segs.subrange(0, j),
        ).len(),
    decreases j,
{
    lemma_cnt_extend(segs, j - 1);
    if i < j - 1 {
        lemma_cnt_mono(segs, i, j - 1);
    }
}

/// In a chained run of non-empty segments, start offsets strictly increase.
pub proof fn lemma_starts_strict(segs: Seq<Segment>)
    requires
        segs_chained(segs),
        forall|k: int| 0 <= k < segs.len() ==> (#[trigger] segs[k]).views().len() > 0,
    ensures
        forall|i: int, j: int|
            #![trigger segs[i], segs[j]]
            0 <= i < j < segs.len() ==> segs[i].start_offset < segs[j].start_offset,
{
    assert forall|i: int, j: int|
        #![trigger segs[i], segs[j]]
        0 <= i < j < segs.len() implies segs[i].start_offset < segs[j].start_offset by {
        lemma_cnt_mono(segs, i, j);
    }
}

/// Offsets are dense: a partition that has ever stored `n` messages has
/// `next_offset == n`, so with `append`'s contract — each accepted batch
/// takes exactly the offsets `next_offset .. next_offset + m` — offsets
/// are assigned strictly increasing, with no gap and no reuse, starting
/// at zero.
pub proof fn lemma_offsets_dense(p: Partition)
    requires
        p.wf(),
    ensures
        p.next_offset == p.msgs().len(),
{
}

/// What the log stores is valid: sealing recomputes the checksum over the
/// message's content, so the stored checksum matches it.
pub proof fn lemma_sealed_valid(m: MessageView)
    ensures
        stored_valid(crate::message::seal(m)),
{
}

/// Round trip: reading one stored offset whose scan range is uncorrupted
/// returns exactly the stored message — identical identifier, timestamp,
/// headers, payload and checksum. Together with `append`'s contract, which
/// stores each accepted batch sealed (so valid, by `lemma_sealed_valid`),
/// a message appended at offset `o` reads back identically at `o`.
pub proof fn lemma_round_trip(p: Partition, offset: u64)
    requires
        p.wf(),
        offset < p.next_offset,
        forall|t: int|
            p.spec_scan_floor(offset) <= t <= offset ==> stored_valid(#[trigger] p.msgs()[t]),
    ensures
        p.spec_read(offset, 1) == Ok::<_, EngineError>(seq![p.msgs()[offset as int]]),
{
    lemma_seg_floor_contains(p.segments@, offset);
    let k = seg_floor_idx(p.segments@, offset);
    p.segments@[k].lemma_scan_floor_bounds(offset);
    let lo = p.spec_scan_floor(offset);
    let end: int = offset + 1;
    lemma_first_invalid_char(p.msgs(), lo, end);
    assert(p.msgs().subrange(offset as int, end) =~= seq![p.msgs()[offset as int]]);
}

} // verus!
