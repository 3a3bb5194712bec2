use vstd::prelude::*;
use crate::checksum;
use crate::errors::EngineError;

verus! {

/// How a client session reached the broker.
#[derive(Clone, Copy, PartialEq, Eq, Structural, Debug)]
pub enum Transport {
    Tcp,
    Quic,
}

impl Transport {
    /// The wire name of this transport.
    pub fn as_str(&self) -> (r: &'static str)
        ensures
            *self is Tcp ==> r@ == "TCP"@,
            *self is Quic ==> r@ == "QUIC"@,
    {
        match self {
            Transport::Tcp => "TCP",
            Transport::Quic => "QUIC",
        }
    }
}

/// A consumer-group membership a client holds: the group, addressed
/// through its stream and topic.
#[derive(Clone, Copy, PartialEq, Eq, Structural, Debug)]
pub struct ConsumerGroup {
    pub stream_id: u32,
    pub topic_id: u32,
    pub group_id: u32,
}

/// One live client session: its derived identifier, the textual address
/// it connected from, its transport, and the groups it has joined.
#[derive(Debug)]
pub struct Client {
    pub id: u32,
    pub address: String,
    pub transport: Transport,
    pub consumer_groups: Vec<ConsumerGroup>,
}

/// The registry of live client sessions, keyed by the identifier derived
/// from each session's address.
#[derive(Debug)]
pub struct ClientManager {
    pub clients: Vec<Client>,
}

/// The identifier a textual address derives to.
pub open spec fn spec_client_id(address: Seq<char>) -> u32 {
    checksum::spec_get(vstd::utf8::encode_utf8(address))
}

/// Index of the first membership entry equal to `g`, or -1.
pub open spec fn first_match(s: Seq<ConsumerGroup>, g: ConsumerGroup) -> int
    decreases s.len(),
{
    if s.len() == 0 {
        -1
    } else if s.first() == g {
        0
    } else {
        let r = first_match(s.drop_first(), g);
        if r == -1 {
            -1
        } else {
            r + 1
        }
    }
}

/// What `first_match` returns, pointwise.
pub proof fn lemma_first_match_char(s: Seq<ConsumerGroup>, g: ConsumerGroup)
    ensures
        s.contains(g) <==> first_match(s, g) >= 0,
        first_match(s, g) >= 0 ==> 0 <= first_match(s, g) < s.len() && s[first_match(s, g)] == g
            && forall|t: int| 0 <= t < first_match(s, g) ==> s[t] != g,
    decreases s.len(),
{
    if s.len() > 0 && s.first() != g {
        lemma_first_match_char(s.drop_first(), g);
        assert(forall|t: int| 0 <= t < s.len() - 1 ==> s.drop_first()[t] == s[t + 1]);
        if s.contains(g) {
            let w = choose|w: int| 0 <= w < s.len() && s[w] == g;
            assert(s.drop_first()[w - 1] == g);
            assert(s.drop_first().contains(g));
        }
        if s.drop_first().contains(g) {
            let r = first_match(s.drop_first(), g);
            assert(s[r + 1] == s.drop_first()[r]);
            assert forall|t: int| 0 <= t < r + 1 implies s[t] != g by {
                if t > 0 {
                    assert(s.drop_first()[t - 1] == s[t]);
                }
            }
        }
    }
}

/// Index of the first entry equal to `m`, scanning front to back.
fn find_membership(gs: &Vec<ConsumerGroup>, m: ConsumerGroup) -> (r: Option<usize>)
    ensures
        (match r {
            Some(j) => j < gs@.len() && gs@[j as int] == m && forall|t: int|
                0 <= t < j ==> gs@[t] != m,
            None => forall|t: int| 0 <= t < gs@.len() ==> gs@[t] != m,
        }),
{
    let mut j: usize = 0;
    while j < gs.len()
        invariant
            0 <= j <= gs@.len(),
            forall|t: int| 0 <= t < j ==> gs@[t] != m,
        decreases gs@.len() - j,
    {
        if gs[j].stream_id == m.stream_id && gs[j].topic_id == m.topic_id && gs[j].group_id
            == m.group_id {
            proof {
                assert(gs@[j as int] == m);
            }
            return Some(j);
        }
        j = j + 1;
    }
    None
}

impl ClientManager {
    /// No two records share an identifier.
    pub open spec fn wf(self) -> bool {
        forall|i: int, j: int|
            #![trigger self.clients@[i], self.clients@[j]]
            0 <= i < j < self.clients@.len() ==> self.clients@[i].id != self.clients@[j].id
    }

    /// An empty registry.
    pub fn new() -> (m: ClientManager)
        ensures
            m.wf(),
            m.clients@.len() == 0,
    {
        ClientManager { clients: Vec::new() }
    }

    /// Index of the registered client with this ID, if any.
    fn find(&self, id: u32) -> (r: Option<usize>)
        ensures
            (match r {
                Some(i) => i < self.clients@.len() && self.clients@[i as int].id == id,
                None => forall|t: int|
                    0 <= t < self.clients@.len() ==> (#[trigger] self.clients@[t]).id != id,
            }),
    {
        let mut i: usize = 0;
        while i < self.clients.len()
            invariant
                0 <= i <= self.clients@.len(),
                forall|t: int| 0 <= t < i ==> (#[trigger] self.clients@[t]).id != id,
            decreases self.clients@.len() - i,
        {
            if self.clients[i].id == id {
                return Some(i);
            }
            i = i + 1;
        }
        None
    }

    /// Register a session under the identifier derived from its address.
    /// A record already held under that identifier is replaced — the same
    /// address derives the same identifier, so a reconnect is idempotent,
    /// while a colliding address silently overwrites. Records under every
    /// other identifier are kept unchanged.
    pub fn add_client(&mut self, address: &str, transport: Transport) -> (id: u32)
        requires
            old(self).wf(),
        ensures
            final(self).wf(),
            id == spec_client_id(address@),
            final(self).clients@.len() >= 1,
            ({
                let c = final(self).clients@.last();
                &&& c.id == id
                &&& c.address@ == address@
                &&& c.transport == transport
                &&& c.consumer_groups@.len() == 0
            }),
            (forall|t: int|
                0 <= t < old(self).clients@.len() ==> (#[trigger] old(self).clients@[t]).id
                    != id) ==> final(self).clients@ == old(self).clients@.push(
                final(self).clients@.last(),
            ),
            (exists|i: int|
                0 <= i < old(self).clients@.len() && (#[trigger] old(self).clients@[i]).id == id)
                ==> exists|i: int|
                0 <= i < old(self).clients@.len() && (#[trigger] old(self).clients@[i]).id == id
                    && final(self).clients@ == old(self).clients@.remove(i).push(
                    final(self).clients@.last(),
                ),
    {
        let id = checksum::get(address.as_bytes());
        match self.find(id) {
            Some(i) => {
                self.clients.remove(i);
            },
            None => {},
        }
        proof {
            assert(forall|t: int|
                0 <= t < self.clients@.len() ==> (#[trigger] self.clients@[t]).id != id);
        }
        let client = Client {
            id,
            address: address.to_owned(),
            transport,
            consumer_groups: Vec::new(),
        };
        self.clients.push(client);
        proof {
            let w = self.clients@.len() - 1;
            assert(self.clients@[w].id == id);
            assert(self.clients@[w].address@ == address@);
            assert(self.clients@[w].transport == transport);
        }
        id
    }

    /// Drop the record stored under the identifier this address derives to
    /// and hand it back, leaving every other record unchanged; an absent
    /// record is no error and changes nothing.
    pub fn delete_client(&mut self, address: &str) -> (r: Option<Client>)
        requires
            old(self).wf(),
        ensures
            final(self).wf(),
            (match r {
                Some(c) => c.id == spec_client_id(address@) && exists|i: int|
                    0 <= i < old(self).clients@.len() && (#[trigger] old(self).clients@[i]) == c
                        && final(self).clients@ == old(self).clients@.remove(i),
                None => final(self).clients@ == old(self).clients@ && forall|t: int|
                    0 <= t < old(self).clients@.len() ==> (#[trigger] old(self).clients@[t]).id
                        != spec_client_id(address@),
            }),
    {
        let id = checksum::get(address.as_bytes());
        match self.find(id) {
            Some(i) => {
                let c = self.clients.remove(i);
                Some(c)
            },
            None => None,
        }
    }

    /// Identifiers of all registered sessions, in registry order.
    pub fn get_clients(&self) -> (ids: Vec<u32>)
        ensures
            ids@.len() == self.clients@.len(),
            forall|i: int| 0 <= i < ids@.len() ==> #[trigger] ids@[i] == self.clients@[i].id,
    {
        let mut ids: Vec<u32> = Vec::new();
        let mut i: usize = 0;
        while i < self.clients.len()
            invariant
                0 <= i <= self.clients@.len(),
                ids@.len() == i,
                forall|t: int| 0 <= t < i ==> #[trigger] ids@[t] == self.clients@[t].id,
            decreases self.clients@.len() - i,
        {
            ids.push(self.clients[i].id);
            i = i + 1;
        }
        ids
    }

    /// Record that a registered client joined a consumer group. Fails with
    /// `ClientNotFound` exactly when no client holds the identifier, and
    /// then changes nothing. Otherwise only the joining client's
    /// membership set changes: it gains the one entry, or is left as it
    /// was if already held, so retried joins are harmless.
    pub fn join_consumer_group(
        &mut self,
        client_id: u32,
        stream_id: u32,
        topic_id: u32,
        group_id: u32,
    ) -> (r: Result<(), EngineError>)
        requires
            old(self).wf(),
        ensures
            final(self).wf(),
            (match r {
                Ok(()) => exists|i: int|
                    #![auto]
                    0 <= i < old(self).clients@.len() && old(self).clients@[i].id == client_id
                        && final(self).clients@ == old(self).clients@.update(
                        i,
                        final(self).clients@[i],
                    ) && ({
                        let c0 = old(self).clients@[i];
                        let c1 = final(self).clients@[i];
                        let m = (ConsumerGroup { stream_id, topic_id, group_id });
                        &&& c1.id == c0.id
                        &&& c1.address@ == c0.address@
                        &&& c1.transport == c0.transport
                        &&& c1.consumer_groups@ == (if c0.consumer_groups@.contains(m) {
                            c0.consumer_groups@
                        } else {
                            c0.consumer_groups@.push(m)
                        })
                    }),
                Err(e) => e == EngineError::ClientNotFound(client_id) && (forall|t: int|
                    0 <= t < old(self).clients@.len() ==> (#[trigger] old(self).clients@[t]).id
                        != client_id) && final(self).clients@ == old(self).clients@,
            }),
    {
        let i = match self.find(client_id) {
            Some(i) => i,
            None => {
                return Err(EngineError::ClientNotFound(client_id));
            },
        };
        let membership = ConsumerGroup { stream_id, topic_id, group_id };
        let mut c = self.clients.remove(i);
        let ghost gs = c.consumer_groups@;
        match find_membership(&c.consumer_groups, membership) {
            Some(j) => {
                proof {
                    assert(gs.contains(membership));
                }
            },
            None => {
                proof {
                    if gs.contains(membership) {
                        let w = choose|w: int| 0 <= w < gs.len() && gs[w] == membership;
                        assert(gs[w] != membership);
                    }
                }
                c.consumer_groups.push(membership);
            },
        }
        let ghost c1 = c;
        self.clients.insert(i, c);
        proof {
            assert(self.clients@ =~= old(self).clients@.update(i as int, c1));
            assert forall|a: int, b: int|
                #![trigger self.clients@[a], self.clients@[b]]
                0 <= a < b < self.clients@.len() implies self.clients@[a].id != self
                .clients@[b].id by {
                assert(old(self).clients@[a].id != old(self).clients@[b].id);
            }
        }
        Ok(())
    }

    /// Record that a registered client left a consumer group. Fails with
    /// `ClientNotFound` exactly when no client holds the identifier, and
    /// then changes nothing. Otherwise only the leaving client's
    /// membership set changes: the first entry equal to the group is
    /// removed, keeping the others in order, and leaving a group not held
    /// is a no-op, not an error.
    pub fn leave_consumer_group(
        &mut self,
        client_id: u32,
        stream_id: u32,
        topic_id: u32,
        group_id: u32,
    ) -> (r: Result<(), EngineError>)
        requires
            old(self).wf(),
        ensures
            final(self).wf(),
            (match r {
                Ok(()) => exists|i: int|
                    #![auto]
                    0 <= i < old(self).clients@.len() && old(self).clients@[i].id == client_id
                        && final(self).clients@ == old(self).clients@.update(
                        i,
                        final(self).clients@[i],
                    ) && ({
                        let c0 = old(self).clients@[i];
                        let c1 = final(self).clients@[i];
                        let m = (ConsumerGroup { stream_id, topic_id, group_id });
                        &&& c1.id == c0.id
                        &&& c1.address@ == c0.address@
                        &&& c1.transport == c0.transport
                        &&& c1.consumer_groups@ == (if c0.consumer_groups@.contains(m) {
                            c0.consumer_groups@.remove(first_match(c0.consumer_groups@, m))
                        } else {
                            c0.consumer_groups@
                        })
                    }),
                Err(e) => e == EngineError::ClientNotFound(client_id) && (forall|t: int|
                    0 <= t < old(self).clients@.len() ==> (#[trigger] old(self).clients@[t]).id
                        != client_id) && final(self).clients@ == old(self).clients@,
            }),
    {
        let i = match self.find(client_id) {
            Some(i) => i,
            None => {
                return Err(EngineError::ClientNotFound(client_id));
            },
        };
        let membership = ConsumerGroup { stream_id, topic_id, group_id };
        let mut c = self.clients.remove(i);
        let ghost gs = c.consumer_groups@;
        match find_membership(&c.consumer_groups, membership) {
            Some(j) => {
                proof {
                    assert(gs.contains(membership));
                    lemma_first_match_char(gs, membership);
                    assert(first_match(gs, membership) == j as int) by {
                        let fm = first_match(gs, membership);
                        assert(gs[fm] == membership);
                        if fm < j as int {
                            assert(gs[fm] != membership);
                        }
                        if fm > j as int {
                            assert(gs[j as int] != membership);
                        }
                    }
                }
                c.consumer_groups.remove(j);
            },
            None => {
                proof {
                    if gs.contains(membership) {
                        let w = choose|w: int| 0 <= w < gs.len() && gs[w] == membership;
                        assert(gs[w] != membership);
                    }
                }
            },
        }
        let ghost c1 = c;
        self.clients.insert(i, c);
        proof {
            assert(self.clients@ =~= old(self).clients@.update(i as int, c1));
            assert forall|a: int, b: int|
                #![trigger self.clients@[a], self.clients@[b]]
                0 <= a < b < self.clients@.len() implies self.clients@[a].id != self
                .clients@[b].id by {
                assert(old(self).clients@[a].id != old(self).clients@[b].id);
            }
        }
        Ok(())
    }
}

impl Default for ClientManager {
    /// An empty registry.
    fn default() -> (m: ClientManager)
        ensures
            m.wf(),
            m.clients@.len() == 0,
    {
        ClientManager::new()
    }
}

} // verus!
