use vstd::prelude::*;
use crate::clients::ClientManager;
use crate::errors::EngineError;

verus! {

/// Strictly ascending: sorted with no duplicates.
pub open spec fn sorted_strict(s: Seq<u32>) -> bool {
    forall|i: int, j: int| 0 <= i < j < s.len() ==> s[i] < s[j]
}

/// The deterministic range assignment of spec'd partitions to members:
/// with both runs sorted ascending, partition `i` goes to member
/// `i mod member_count`; no members, no assignment.
pub open spec fn spec_assignment(members: Seq<u32>, partitions: Seq<u32>) -> Seq<(u32, u32)> {
    if members.len() == 0 {
        Seq::empty()
    } else {
        Seq::new(partitions.len(), |i: int| (partitions[i], members[i % (members.len() as int)]))
    }
}

/// Two strictly ascending runs over the same set are the same run.
pub proof fn lemma_strict_sorted_same_set(x: Seq<u32>, y: Seq<u32>)
    requires
        sorted_strict(x),
        sorted_strict(y),
        x.to_set() == y.to_set(),
    ensures
        x =~= y,
    decreases x.len() + y.len(),
{
    if x.len() == 0 {
        if y.len() > 0 {
            assert(y.to_set().contains(y[0]));
            assert(x.contains(y[0]));
        }
    } else if y.len() == 0 {
        assert(x.to_set().contains(x[0]));
        assert(y.contains(x[0]));
    } else {
        assert(x[0] == y[0]) by {
            assert(x.to_set().contains(x[0]));
            assert(y.contains(x[0]));
            let i = choose|i: int| 0 <= i < y.len() && y[i] == x[0];
            assert(y[0] <= y[i]);
            assert(y.to_set().contains(y[0]));
            assert(x.contains(y[0]));
            let j = choose|j: int| 0 <= j < x.len() && x[j] == y[0];
            assert(x[0] <= x[j]);
        }
        let xd = x.drop_first();
        let yd = y.drop_first();
        assert(forall|t: int| 0 <= t < xd.len() ==> xd[t] == x[t + 1]);
        assert(forall|t: int| 0 <= t < yd.len() ==> yd[t] == y[t + 1]);
        assert(xd.to_set() =~= yd.to_set()) by {
            assert forall|e: u32| xd.to_set().contains(e) implies yd.to_set().contains(e) by {
                let t = choose|t: int| 0 <= t < xd.len() && xd[t] == e;
                assert(x[t + 1] == e);
                assert(x.contains(e));
                assert(x.to_set().contains(e));
                assert(y.to_set().contains(e));
                assert(y.contains(e));
                let u = choose|u: int| 0 <= u < y.len() && y[u] == e;
                assert(e > x[0]);
                assert(u > 0);
                assert(yd[u - 1] == e);
                assert(yd.contains(e));
            }
            assert forall|e: u32| yd.to_set().contains(e) implies xd.to_set().contains(e) by {
                let t = choose|t: int| 0 <= t < yd.len() && yd[t] == e;
                assert(y[t + 1] == e);
                assert(y.contains(e));
                assert(y.to_set().contains(e));
                assert(x.to_set().contains(e));
                assert(x.contains(e));
                let u = choose|u: int| 0 <= u < x.len() && x[u] == e;
                assert(e > y[0]);
                assert(u > 0);
                assert(xd[u - 1] == e);
                assert(xd.contains(e));
            }
        }
        lemma_strict_sorted_same_set(xd, yd);
        assert forall|t: int| 0 <= t < x.len() implies x[t] == y[t] by {
            if t > 0 {
                assert(xd[t - 1] == yd[t - 1]);
            }
        }
    }
}

/// Assignment is a pure function of the member set and the partition run:
/// whatever join/leave order produced a member set, the strictly sorted
/// runs over equal sets are equal, so the computed assignment is too.
pub proof fn lemma_assignment_deterministic(m1: Seq<u32>, m2: Seq<u32>, partitions: Seq<u32>)
    requires
        sorted_strict(m1),
        sorted_strict(m2),
        m1.to_set() == m2.to_set(),
    ensures
        spec_assignment(m1, partitions) == spec_assignment(m2, partitions),
{
    lemma_strict_sorted_same_set(m1, m2);
}

/// Compute the deterministic range assignment: partition `i` goes to
/// member `i mod member_count`, both runs sorted ascending.
pub fn compute_assignment(members: &Vec<u32>, partitions: &Vec<u32>) -> (a: Vec<(u32, u32)>)
    requires
        members@.len() >= 1,
    ensures
        a@ == spec_assignment(members@, partitions@),
{
    let mut a: Vec<(u32, u32)> = Vec::new();
    let mut i: usize = 0;
    while i < partitions.len()
        invariant
            0 <= i <= partitions@.len(),
            members@.len() >= 1,
            a@.len() == i,
            forall|t: int|
                0 <= t < i ==> #[trigger] a@[t] == (
                partitions@[t],
                members@[t % (members@.len() as int)],
            ),
        decreases partitions@.len() - i,
    {
        let idx = i % members.len();
        a.push((partitions[i], members[idx]));
        i = i + 1;
    }
    proof {
        assert(a@ =~= spec_assignment(members@, partitions@));
    }
    a
}

/// One consumer group of a topic: its identifier and name, its member set
/// held as a strictly ascending run of client identifiers, the partition
/// identifiers it covers, the current deterministic assignment, and the
/// offset the group has committed per partition.
#[derive(Debug)]
pub struct Group {
    pub id: u32,
    pub name: String,
    /// Member client identifiers, strictly ascending.
    pub members: Vec<u32>,
    /// Partition identifiers covered, strictly ascending.
    pub partitions: Vec<u32>,
    /// The assignment recomputed on every membership change: one
    /// `(partition, member)` pair per partition while the group has members.
    pub assignment: Vec<(u32, u32)>,
    /// Last offset confirmed consumed, per partition in `partitions` order.
    pub committed_offsets: Vec<u64>,
}

impl Group {
    /// Structural invariant: both identifier runs strictly ascending, one
    /// committed offset per partition, and the assignment exactly the
    /// deterministic one for the current members.
    pub open spec fn wf(self) -> bool {
        &&& sorted_strict(self.members@)
        &&& sorted_strict(self.partitions@)
        &&& self.committed_offsets@.len() == self.partitions@.len()
        &&& self.assignment@ == spec_assignment(self.members@, self.partitions@)
    }

    /// Everything but members and assignment is unchanged.
    pub open spec fn same_identity(self, other: Group) -> bool {
        &&& self.id == other.id
        &&& self.name@ == other.name@
        &&& self.partitions@ == other.partitions@
        &&& self.committed_offsets@ == other.committed_offsets@
    }

    /// A new, empty group over the given partitions; nothing is assigned
    /// and every committed offset starts at zero.
    pub fn create(id: u32, name: String, partitions: Vec<u32>) -> (g: Group)
        requires
            sorted_strict(partitions@),
        ensures
            g.wf(),
            g.id == id,
            g.name@ == name@,
            g.partitions@ == partitions@,
            g.members@.len() == 0,
            g.assignment@.len() == 0,
            forall|t: int|
                0 <= t < g.committed_offsets@.len() ==> #[trigger] g.committed_offsets@[t] == 0,
    {
        let mut committed: Vec<u64> = Vec::new();
        let n = partitions.len();
        let mut i: usize = 0;
        while i < n
            invariant
                0 <= i <= n,
                committed@.len() == i,
                forall|t: int| 0 <= t < i ==> #[trigger] committed@[t] == 0,
            decreases n - i,
        {
            committed.push(0);
            i = i + 1;
        }
        let g = Group {
            id,
            name,
            members: Vec::new(),
            partitions,
            assignment: Vec::new(),
            committed_offsets: committed,
        };
        proof {
            assert(g.assignment@ =~= spec_assignment(g.members@, g.partitions@));
        }
        g
    }

    /// Recompute the assignment for the current member set.
    fn reassign(&mut self)
        requires
            sorted_strict(old(self).members@),
        ensures
            final(self).members@ == old(self).members@,
            final(self).same_identity(*old(self)),
            final(self).assignment@ == spec_assignment(final(self).members@, final(self).partitions@),
    {
        if self.members.len() == 0 {
            self.assignment = Vec::new();
            proof {
                assert(self.assignment@ =~= spec_assignment(self.members@, self.partitions@));
            }
        } else {
            self.assignment = compute_assignment(&self.members, &self.partitions);
        }
    }

    /// Index of the first member at or above `c`, so the run stays sorted
    /// when `c` is inserted there.
    fn insert_position(&self, c: u32) -> (p: usize)
        requires
            sorted_strict(self.members@),
        ensures
            0 <= p <= self.members@.len(),
            forall|t: int| 0 <= t < p ==> #[trigger] self.members@[t] < c,
            p < self.members@.len() ==> self.members@[p as int] >= c,
    {
        let mut p: usize = 0;
        while p < self.members.len()
            invariant
                0 <= p <= self.members@.len(),
                forall|t: int| 0 <= t < p ==> #[trigger] self.members@[t] < c,
            decreases self.members@.len() - p,
        {
            if self.members[p] >= c {
                return p;
            }
            p = p + 1;
        }
        p
    }

    /// Add a member and recompute the assignment. Joining a group already
    /// joined is a no-op — the whole state is left as it was — so client
    /// retries are harmless.
    pub fn join(&mut self, client_id: u32)
        requires
            old(self).wf(),
        ensures
            final(self).wf(),
            final(self).same_identity(*old(self)),
            final(self).members@.to_set() == old(self).members@.to_set().insert(client_id),
            old(self).members@.contains(client_id) ==> final(self).members@ == old(self).members@
                && final(self).assignment@ == old(self).assignment@,
            !old(self).members@.contains(client_id) ==> final(self).members@.len() == old(self).members@.len() + 1,
            final(self).assignment@ == spec_assignment(final(self).members@, final(self).partitions@),
    {
        let ghost pre = self.members@;
        let p = self.insert_position(client_id);
        if p < self.members.len() && self.members[p] == client_id {
            proof {
                assert(pre.contains(client_id));
                assert(pre.to_set() =~= pre.to_set().insert(client_id));
            }
            return ;
        }
        proof {
            if pre.contains(client_id) {
                let w = choose|w: int| 0 <= w < pre.len() && pre[w] == client_id;
                assert(pre[w] < client_id || pre[w] >= client_id);
                if w < p as int {
                } else {
                    assert(pre[p as int] <= pre[w]);
                }
                assert(false);
            }
        }
        self.members.insert(p, client_id);
        proof {
            let now = self.members@;
            assert(now == pre.insert(p as int, client_id));
            assert forall|i: int, j: int| 0 <= i < j < now.len() implies now[i] < now[j] by {
                if j < p as int {
                } else if i >= p as int + 1 {
                    assert(now[i] == pre[i - 1] && now[j] == pre[j - 1]);
                } else if i < p as int && j == p as int {
                    assert(now[i] == pre[i]);
                } else if i == p as int && j > p as int {
                    assert(now[j] == pre[j - 1]);
                } else if i < p as int && j > p as int {
                    assert(now[i] == pre[i] && now[j] == pre[j - 1]);
                }
            }
            assert(now.to_set() =~= pre.to_set().insert(client_id)) by {
                assert forall|e: u32| now.to_set().contains(e) implies pre.to_set().insert(
                    client_id,
                ).contains(e) by {
                    let t = choose|t: int| 0 <= t < now.len() && now[t] == e;
                    if t < p as int {
                        assert(pre[t] == e);
                        assert(pre.contains(e));
                    } else if t > p as int {
                        assert(pre[t - 1] == e);
                        assert(pre.contains(e));
                    }
                }
                assert forall|e: u32| pre.to_set().insert(client_id).contains(e) implies now
                    .to_set().contains(e) by {
                    if e == client_id {
                        assert(now[p as int] == e);
                        assert(now.contains(e));
                    } else {
                        let t = choose|t: int| 0 <= t < pre.len() && pre[t] == e;
                        if t < p as int {
                            assert(now[t] == e);
                        } else {
                            assert(now[t + 1] == e);
                        }
                        assert(now.contains(e));
                    }
                }
            }
        }
        self.reassign();
    }

    /// Remove a member and recompute the assignment. Leaving a group not
    /// joined is a no-op — the whole state is left as it was — not an
    /// error, so client retries are harmless.
    pub fn leave(&mut self, client_id: u32)
        requires
            old(self).wf(),
        ensures
            final(self).wf(),
            final(self).same_identity(*old(self)),
            final(self).members@.to_set() == old(self).members@.to_set().remove(client_id),
            !old(self).members@.contains(client_id) ==> final(self).members@ == old(self).members@
                && final(self).assignment@ == old(self).assignment@,
            old(self).members@.contains(client_id) ==> final(self).members@.len() + 1 == old(self).members@.len(),
            final(self).assignment@ == spec_assignment(final(self).members@, final(self).partitions@),
    {
        let ghost pre = self.members@;
        let p = self.insert_position(client_id);
        if !(p < self.members.len() && self.members[p] == client_id) {
            proof {
                if pre.contains(client_id) {
                    let w = choose|w: int| 0 <= w < pre.len() && pre[w] == client_id;
                    if w >= p as int && (p as int) < pre.len() {
                        assert(pre[p as int] <= pre[w]);
                    }
                    assert(false);
                }
                assert(pre.to_set() =~= pre.to_set().remove(client_id));
            }
            return ;
        }
        self.members.remove(p);
        proof {
            let now = self.members@;
            assert(now == pre.remove(p as int));
            assert forall|i: int, j: int| 0 <= i < j < now.len() implies now[i] < now[j] by {
                assert(now[i] == (if i < p as int {
                    pre[i]
                } else {
                    pre[i + 1]
                }));
                assert(now[j] == (if j < p as int {
                    pre[j]
                } else {
                    pre[j + 1]
                }));
            }
            assert(now.to_set() =~= pre.to_set().remove(client_id)) by {
                assert forall|e: u32| now.to_set().contains(e) implies pre.to_set().remove(
                    client_id,
                ).contains(e) by {
                    let t = choose|t: int| 0 <= t < now.len() && now[t] == e;
                    if t < p as int {
                        assert(pre[t] == e);
                        assert(pre.contains(e));
                        assert(pre[t] < pre[p as int]);
                    } else {
                        assert(pre[t + 1] == e);
                        assert(pre.contains(e));
                        assert(pre[p as int] < pre[t + 1]);
                    }
                }
                assert forall|e: u32| pre.to_set().remove(client_id).contains(e) implies now
                    .to_set().contains(e) by {
                    let t = choose|t: int| 0 <= t < pre.len() && pre[t] == e;
                    if t < p as int {
                        assert(now[t] == e);
                    } else {
                        assert(t != p as int);
                        assert(now[t - 1] == e);
                    }
                    assert(now.contains(e));
                }
            }
        }
        self.reassign();
    }

    /// Index of a partition identifier within the covered run, if any.
    fn partition_index(&self, partition_id: u32) -> (r: Option<usize>)
        ensures
            (match r {
                Some(j) => j < self.partitions@.len() && self.partitions@[j as int]
                    == partition_id,
                None => forall|t: int|
                    0 <= t < self.partitions@.len() ==> #[trigger] self.partitions@[t]
                        != partition_id,
            }),
    {
        let mut j: usize = 0;
        while j < self.partitions.len()
            invariant
                0 <= j <= self.partitions@.len(),
                forall|t: int| 0 <= t < j ==> #[trigger] self.partitions@[t] != partition_id,
            decreases self.partitions@.len() - j,
        {
            if self.partitions[j] == partition_id {
                return Some(j);
            }
            j = j + 1;
        }
        None
    }

    /// Commit the group's consumed offset for one partition. `Ok` exactly
    /// when the partition is covered and the offset neither exceeds the
    /// partition's `next_offset` nor regresses below the stored value;
    /// then exactly that one stored value is raised. An unknown partition
    /// or an out-of-range offset is rejected with nothing changed.
    pub fn commit_offset(&mut self, partition_id: u32, offset: u64, partition_next_offset: u64)
        -> (r: Result<(), EngineError>)
        requires
            old(self).wf(),
        ensures
            final(self).wf(),
            final(self).members@ == old(self).members@,
            final(self).assignment@ == old(self).assignment@,
            final(self).partitions@ == old(self).partitions@,
            final(self).id == old(self).id,
            final(self).name@ == old(self).name@,
            (match r {
                Ok(()) => exists|j: int|
                    #![auto]
                    0 <= j < old(self).partitions@.len() && old(self).partitions@[j]
                        == partition_id && offset <= partition_next_offset && offset >= old(self).committed_offsets@[j] && final(self).committed_offsets@ == old(self).committed_offsets@.update(j, offset),
                Err(e) => final(self).committed_offsets@ == old(self).committed_offsets@ && ((e
                    == EngineError::PartitionNotFound(partition_id) && (forall|t: int|
                    0 <= t < old(self).partitions@.len() ==> #[trigger] old(self).partitions@[t]
                        != partition_id)) || (e == EngineError::InvalidOffset(offset) && exists|
                    j: int,
                |
                    #![auto]
                    0 <= j < old(self).partitions@.len() && old(self).partitions@[j]
                        == partition_id && (offset > partition_next_offset || offset < old(self).committed_offsets@[j]))),
            }),
    {
        let j = match self.partition_index(partition_id) {
            Some(j) => j,
            None => {
                return Err(EngineError::PartitionNotFound(partition_id));
            },
        };
        if offset > partition_next_offset {
            return Err(EngineError::InvalidOffset(offset));
        }
        if offset < self.committed_offsets[j] {
            return Err(EngineError::InvalidOffset(offset));
        }
        self.committed_offsets.remove(j);
        self.committed_offsets.insert(j, offset);
        proof {
            assert(self.committed_offsets@ =~= old(self).committed_offsets@.update(
                j as int,
                offset,
            ));
        }
        Ok(())
    }

    /// Commit a rewind: an administrative, forced commit that may regress
    /// below the stored value, but never past the partition's end.
    pub fn force_commit_offset(
        &mut self,
        partition_id: u32,
        offset: u64,
        partition_next_offset: u64,
    ) -> (r: Result<(), EngineError>)
        requires
            old(self).wf(),
        ensures
            final(self).wf(),
            final(self).members@ == old(self).members@,
            final(self).assignment@ == old(self).assignment@,
            final(self).partitions@ == old(self).partitions@,
            final(self).id == old(self).id,
            final(self).name@ == old(self).name@,
            (match r {
                Ok(()) => exists|j: int|
                    #![auto]
                    0 <= j < old(self).partitions@.len() && old(self).partitions@[j]
                        == partition_id && offset <= partition_next_offset && final(self).committed_offsets@ == old(self).committed_offsets@.update(j, offset),
                Err(e) => final(self).committed_offsets@ == old(self).committed_offsets@ && ((e
                    == EngineError::PartitionNotFound(partition_id) && (forall|t: int|
                    0 <= t < old(self).partitions@.len() ==> #[trigger] old(self).partitions@[t]
                        != partition_id)) || (e == EngineError::InvalidOffset(offset) && offset
                    > partition_next_offset)),
            }),
    {
        let j = match self.partition_index(partition_id) {
            Some(j) => j,
            None => {
                return Err(EngineError::PartitionNotFound(partition_id));
            },
        };
        if offset > partition_next_offset {
            return Err(EngineError::InvalidOffset(offset));
        }
        self.committed_offsets.remove(j);
        self.committed_offsets.insert(j, offset);
        proof {
            assert(self.committed_offsets@ =~= old(self).committed_offsets@.update(
                j as int,
                offset,
            ));
        }
        Ok(())
    }
}

/// Session-level group join: record the membership on the client's own
/// record, then delegate to the group, which recomputes the assignment.
/// Fails with `ClientNotFound` exactly when the client is unregistered,
/// and then neither the registry nor the group changes.
pub fn join_group(
    manager: &mut ClientManager,
    group: &mut Group,
    client_id: u32,
    stream_id: u32,
    topic_id: u32,
) -> (r: Result<(), EngineError>)
    requires
        old(manager).wf(),
        old(group).wf(),
    ensures
        final(manager).wf(),
        final(group).wf(),
        (match r {
            Ok(()) => final(group).members@.to_set() == old(group).members@.to_set().insert(
                client_id,
            ) && final(group).assignment@ == spec_assignment(
                final(group).members@,
                final(group).partitions@,
            ) && final(group).same_identity(*old(group)),
            Err(e) => e == EngineError::ClientNotFound(client_id) && final(manager).clients@
                == old(manager).clients@ && *final(group) == *old(group),
        }),
{
    match manager.join_consumer_group(client_id, stream_id, topic_id, group.id) {
        Ok(()) => {},
        Err(e) => {
            return Err(e);
        },
    }
    group.join(client_id);
    Ok(())
}

/// Session-level group leave: remove the membership from the client's own
/// record, then delegate to the group, which recomputes the assignment.
/// Fails with `ClientNotFound` exactly when the client is unregistered,
/// and then neither the registry nor the group changes.
pub fn leave_group(
    manager: &mut ClientManager,
    group: &mut Group,
    client_id: u32,
    stream_id: u32,
    topic_id: u32,
) -> (r: Result<(), EngineError>)
    requires
        old(manager).wf(),
        old(group).wf(),
    ensures
        final(manager).wf(),
        final(group).wf(),
        (match r {
            Ok(()) => final(group).members@.to_set() == old(group).members@.to_set().remove(
                client_id,
            ) && final(group).assignment@ == spec_assignment(
                final(group).members@,
                final(group).partitions@,
            ) && final(group).same_identity(*old(group)),
            Err(e) => e == EngineError::ClientNotFound(client_id) && final(manager).clients@
                == old(manager).clients@ && *final(group) == *old(group),
        }),
{
    match manager.leave_consumer_group(client_id, stream_id, topic_id, group.id) {
        Ok(()) => {},
        Err(e) => {
            return Err(e);
        },
    }
    group.leave(client_id);
    Ok(())
}

} // verus!
