//! Gossip support: the data-access callbacks a gossip engine drives, and
//! the per-agent session dispatch.
//!
//! The real gossip state machines are external black boxes. This module
//! supplies what they consume: discovery, range and fetch callbacks
//! answered from the index snapshot, with the responding agent passed
//! explicitly through every signature, so no shared "current agent" cursor
//! exists to race on.

use vstd::prelude::*;

use crate::data::{copy_peer_info, peer_like, PeerInfo};
use crate::index::GeneratedData;
use crate::query::{
    find_agent, has_agent, lemma_agent_idx, lemma_held_peer_idxs_valid, lemma_ranked_fields,
    lemma_sort_ranks_ensures, spec_agent_idx, spec_ranked, spec_sort_ranks, RankedPeer,
};
use crate::ring::ArcInterval;

verus! {

/// The two independently scheduled gossip rounds.
#[derive(Clone, Copy, Debug, PartialEq, Eq, Structural)]
pub enum GossipModule {
    ShardedRecent,
    ShardedHistorical,
}

/// The filters of a peer discovery callback: an optional agent allow-list,
/// an optional inclusive window on the signing time, and an optional arc
/// set the announced arc center must fall in.
pub open spec fn qa_pred(
    infos: Seq<PeerInfo>,
    agents: Option<Seq<u64>>,
    window: Option<(u64, u64)>,
    arcs: Option<Seq<ArcInterval>>,
) -> spec_fn(usize) -> bool {
    |j: usize|
        {
            &&& match agents {
                Some(ag) => ag.contains(infos[j as int].agent),
                None => true,
            }
            &&& match window {
                Some(w) => w.0 <= infos[j as int].signed_at_ms <= w.1,
                None => true,
            }
            &&& match arcs {
                Some(ivs) => exists|t: int|
                    0 <= t < ivs.len() && (#[trigger] ivs[t]).spec_contains(
                        infos[j as int].storage_arc.center,
                    ),
                None => true,
            }
        }
}

/// Whether a value occurs in a list.
fn contains_u64(list: &Vec<u64>, x: u64) -> (r: bool)
    ensures
        r == list@.contains(x),
{
    let mut i: usize = 0;
    while i < list.len()
        invariant
            i <= list@.len(),
            forall|j: int| 0 <= j < i ==> list@[j] != x,
        decreases list@.len() - i,
    {
        if list[i] == x {
            proof {
                assert(list@[i as int] == x);
            }
            return true;
        }
        i = i + 1;
    }
    proof {
        if list@.contains(x) {
            let j = choose|j: int| 0 <= j < list@.len() && list@[j] == x;
            assert(list@[j] != x);
        }
    }
    false
}

/// Whether any interval of the set contains the location.
fn any_contains(ivs: &Vec<ArcInterval>, loc: u32) -> (r: bool)
    ensures
        r == exists|t: int|
            0 <= t < ivs@.len() && (#[trigger] ivs@[t]).spec_contains(loc),
{
    let mut i: usize = 0;
    while i < ivs.len()
        invariant
            i <= ivs@.len(),
            forall|j: int| 0 <= j < i ==> !(#[trigger] ivs@[j]).spec_contains(loc),
        decreases ivs@.len() - i,
    {
        if ivs[i].contains_loc(loc) {
            return true;
        }
        i = i + 1;
    }
    false
}

impl GeneratedData {
    /// Answer a peer discovery callback as `agent`: the announcements that
    /// agent holds, narrowed by the optional filters, and, when a nearness
    /// basis is given, ordered by ring distance from it, nearest first,
    /// ties broken by announcement position.
    pub fn query_agents(
        &self,
        agent: u64,
        agents: Option<&Vec<u64>>,
        window: Option<(u64, u64)>,
        arc_set: Option<&Vec<ArcInterval>>,
        near_basis: Option<u32>,
    ) -> (r: Vec<PeerInfo>)
        requires
            self.wf(),
            has_agent(self.agent_info@, agent),
        ensures
            ({
                let k = spec_agent_idx(self.agent_info@, agent);
                let gagents = match agents {
                    Some(a) => Some(a@),
                    None => None,
                };
                let garcs = match arc_set {
                    Some(a) => Some(a@),
                    None => None,
                };
                let kept = self.all_held_agents@[k]@.filter(
                    qa_pred(self.agent_info@, gagents, window, garcs),
                );
                match near_basis {
                    Some(nb) => {
                        let ranked = spec_sort_ranks(spec_ranked(self.agent_info@, kept, nb));
                        &&& r@.len() == ranked.len()
                        &&& forall|m: int|
                            0 <= m < r@.len() ==> (#[trigger] ranked[m]).idx
                                < self.agent_info@.len() && peer_like(
                                r@[m],
                                self.agent_info@[ranked[m].idx as int],
                            )
                    },
                    None => {
                        &&& r@.len() == kept.len()
                        &&& forall|m: int|
                            0 <= m < r@.len() ==> (#[trigger] kept[m]) < self.agent_info@.len()
                                && peer_like(r@[m], self.agent_info@[kept[m] as int])
                    },
                }
            }),
    {
        let ka = match find_agent(&self.agent_info, agent) {
            Some(k) => k,
            None => {
                proof {
                    assert(false);
                }
                return Vec::new();
            },
        };
        proof {
            lemma_agent_idx(self.agent_info@, agent, ka as int);
            lemma_held_peer_idxs_valid(
                self.agent_info@,
                self.agent_info@[ka as int].storage_arc,
            );
        }
        let held = &self.all_held_agents[ka];
        let ghost gagents: Option<Seq<u64>> = match agents {
            Some(a) => Some(a@),
            None => None,
        };
        let ghost garcs: Option<Seq<ArcInterval>> = match arc_set {
            Some(a) => Some(a@),
            None => None,
        };
        let ghost pred = qa_pred(self.agent_info@, gagents, window, garcs);
        let mut kept: Vec<usize> = Vec::new();
        let mut i: usize = 0;
        while i < held.len()
            invariant
                i <= held@.len(),
                pred == qa_pred(self.agent_info@, gagents, window, garcs),
                gagents == match agents {
                    Some(a) => Some(a@),
                    None => None,
                },
                garcs == match arc_set {
                    Some(a) => Some(a@),
                    None => None,
                },
                forall|t: int|
                    0 <= t < held@.len() ==> (#[trigger] held@[t]) < self.agent_info@.len(),
                kept@ == held@.take(i as int).filter(pred),
            decreases held@.len() - i,
        {
            proof {
                reveal(Seq::filter);
                assert(held@.take(i + 1).drop_last() =~= held@.take(i as int));
                assert(held@.take(i + 1).last() == held@[i as int]);
            }
            let j = held[i];
            let info = &self.agent_info[j];
            let pass_agents = match agents {
                Some(a) => contains_u64(a, info.agent),
                None => true,
            };
            let pass_window = match window {
                Some(w) => w.0 <= info.signed_at_ms && info.signed_at_ms <= w.1,
                None => true,
            };
            let pass_arcs = match arc_set {
                Some(ivs) => any_contains(ivs, info.storage_arc.center),
                None => true,
            };
            let keep = pass_agents && pass_window && pass_arcs;
            proof {
                assert(pred(held@[i as int]) == keep);
            }
            if keep {
                kept.push(j);
            }
            i = i + 1;
        }
        proof {
            assert(held@.take(held@.len() as int) =~= held@);
            crate::index::lemma_filter_subset(held@, pred);
            assert forall|t: int| 0 <= t < kept@.len() implies (#[trigger] kept@[t])
                < self.agent_info@.len() by {
                assert(kept@.contains(kept@[t]));
                assert(held@.contains(kept@[t]));
                let u = choose|u: int| 0 <= u < held@.len() && held@[u] == kept@[t];
            }
        }
        match near_basis {
            Some(nb) => {
                let mut ranked: Vec<RankedPeer> = Vec::new();
                let mut m: usize = 0;
                while m < kept.len()
                    invariant
                        m <= kept@.len(),
                        forall|t: int|
                            0 <= t < kept@.len() ==> (#[trigger] kept@[t])
                                < self.agent_info@.len(),
                        ranked@ == spec_ranked(self.agent_info@, kept@.take(m as int), nb),
                    decreases kept@.len() - m,
                {
                    proof {
                        assert(kept@.take(m + 1).drop_last() =~= kept@.take(m as int));
                        assert(kept@.take(m + 1).last() == kept@[m as int]);
                    }
                    let idx = kept[m];
                    let dist = crate::ring::shortest_arc_distance(
                        nb,
                        self.agent_info[idx].storage_arc.center,
                    );
                    ranked.push(RankedPeer { dist, idx });
                    m = m + 1;
                }
                proof {
                    assert(kept@.take(kept@.len() as int) =~= kept@);
                }
                let mut sorted: Vec<RankedPeer> = Vec::new();
                let mut t: usize = 0;
                while t < ranked.len()
                    invariant
                        t <= ranked@.len(),
                        sorted@ == spec_sort_ranks(ranked@.take(t as int)),
                    decreases ranked@.len() - t,
                {
                    crate::query::insert_rank(&mut sorted, ranked[t]);
                    proof {
                        assert(ranked@.take(t + 1).drop_last() =~= ranked@.take(t as int));
                        assert(ranked@.take(t + 1).last() == ranked@[t as int]);
                    }
                    t = t + 1;
                }
                proof {
                    assert(ranked@.take(ranked@.len() as int) =~= ranked@);
                    lemma_sort_ranks_ensures(ranked@);
                    lemma_ranked_fields(self.agent_info@, kept@, nb);
                    assert forall|u: int| 0 <= u < sorted@.len() implies (
                    #[trigger] sorted@[u]).idx < self.agent_info@.len() by {
                        assert(sorted@.contains(sorted@[u]));
                        assert(ranked@.contains(sorted@[u]));
                        let w = choose|w: int| 0 <= w < ranked@.len() && ranked@[w] == sorted@[u];
                        assert(ranked@[w].idx == kept@[w]);
                    }
                }
                let mut out: Vec<PeerInfo> = Vec::new();
                let mut u: usize = 0;
                while u < sorted.len()
                    invariant
                        u <= sorted@.len(),
                        forall|w: int|
                            0 <= w < sorted@.len() ==> (#[trigger] sorted@[w]).idx
                                < self.agent_info@.len(),
                        out@.len() == u,
                        forall|w: int|
                            0 <= w < u ==> peer_like(
                                #[trigger] out@[w],
                                self.agent_info@[sorted@[w].idx as int],
                            ),
                    decreases sorted@.len() - u,
                {
                    let idx = sorted[u].idx;
                    out.push(copy_peer_info(&self.agent_info[idx]));
                    u = u + 1;
                }
                out
            },
            None => {
                let mut out: Vec<PeerInfo> = Vec::new();
                let mut u: usize = 0;
                while u < kept.len()
                    invariant
                        u <= kept@.len(),
                        forall|w: int|
                            0 <= w < kept@.len() ==> (#[trigger] kept@[w])
                                < self.agent_info@.len(),
                        out@.len() == u,
                        forall|w: int|
                            0 <= w < u ==> peer_like(
                                #[trigger] out@[w],
                                self.agent_info@[kept@[w] as int],
                            ),
                    decreases kept@.len() - u,
                {
                    let idx = kept[u];
                    out.push(copy_peer_info(&self.agent_info[idx]));
                    u = u + 1;
                }
                out
            },
        }
    }
}

/// The data-access surface handed to the gossip engines: the index
/// snapshot together with the callbacks the engines drive, each taking the
/// responding agent explicitly.
pub struct DataRequests {
    /// The shared immutable snapshot every callback reads.
    pub data: GeneratedData,
}

impl DataRequests {
    /// Wrap a snapshot.
    pub fn new(data: GeneratedData) -> (r: DataRequests)
        ensures
            r.data == data,
    {
        DataRequests { data }
    }

    /// Accept a batch of gossiped ops and discard it: the simulated peers
    /// never store what a real node offers them.
    pub fn gossip(&self, _space: u64, _agent: u64, ops: &Vec<Vec<u8>>) -> (r: usize)
        ensures
            r == ops@.len(),
    {
        ops.len()
    }

    /// Accept a pushed announcement and discard it, reporting whether the
    /// snapshot already knows the agent.
    pub fn put_agent_info(&self, info: &PeerInfo) -> (r: bool)
        ensures
            r == has_agent(self.data.agent_info@, info.agent),
    {
        match find_agent(&self.data.agent_info, info.agent) {
            Some(_) => true,
            None => false,
        }
    }
}

/// One simulated agent's pair of gossip state machines; the engines
/// themselves are external black boxes behind the `GossipEngine` trait.
pub trait GossipEngine {
    /// Feed one incoming wire message from the peer behind `from`; the
    /// engine answers with the wire messages to send back.
    fn process_incoming(&mut self, from: u64, msg: Vec<u8>) -> Result<Vec<Vec<u8>>, u32>;
}

/// The recent and historical round machines of one agent.
pub struct GossipState<E> {
    pub recent: E,
    pub historical: E,
}

/// The gossip session driver: one state-machine pair per simulated agent,
/// addressed explicitly by agent identity on every dispatch.
pub struct Gossip<E> {
    /// Per-agent state, keyed by agent identity.
    pub agents: Vec<(u64, GossipState<E>)>,
}

/// Whether the driver hosts a session for the agent.
pub open spec fn has_session<E>(agents: Seq<(u64, GossipState<E>)>, to: u64) -> bool {
    exists|i: int| 0 <= i < agents.len() && (#[trigger] agents[i]).0 == to
}

/// Whether `i` is the first session entry keyed by the agent.
pub open spec fn first_session_at<E>(
    agents: Seq<(u64, GossipState<E>)>,
    to: u64,
    i: int,
) -> bool {
    &&& 0 <= i < agents.len()
    &&& agents[i].0 == to
    &&& forall|j: int| 0 <= j < i ==> (#[trigger] agents[j]).0 != to
}

/// The position of the first session entry keyed by the agent; meaningful
/// only when one exists.
pub open spec fn spec_session_idx<E>(agents: Seq<(u64, GossipState<E>)>, to: u64) -> int {
    choose|i: int| first_session_at(agents, to, i)
}

/// The first session position is unique, and it is what
/// `spec_session_idx` denotes.
pub proof fn lemma_session_idx<E>(agents: Seq<(u64, GossipState<E>)>, to: u64, i: int)
    requires
        first_session_at(agents, to, i),
    ensures
        spec_session_idx(agents, to) == i,
{
    let c = spec_session_idx(agents, to);
    assert(first_session_at(agents, to, c));
    if c < i {
        assert(agents[c].0 != to);
    } else if i < c {
        assert(agents[i].0 != to);
    }
}

impl<E: GossipEngine> Gossip<E> {
    /// Host a set of sessions.
    pub fn new(agents: Vec<(u64, GossipState<E>)>) -> (r: Gossip<E>)
        ensures
            r.agents == agents,
    {
        Gossip { agents }
    }

    /// Dispatch one incoming wire message to the addressed agent's round
    /// machine: the recent machine for the recent module, the historical
    /// machine otherwise. Fails exactly when no session exists for the
    /// agent. The set of hosted agents never changes, every other agent's
    /// machines are untouched, and of the addressed agent only the
    /// addressed module's machine may change; what the engine answers is
    /// the engine's own business.
    pub fn process_msg(&mut self, from: u64, to: u64, module: GossipModule, msg: Vec<u8>) -> (r:
        Result<Vec<Vec<u8>>, u32>)
        ensures
            final(self).agents@.len() == old(self).agents@.len(),
            forall|j: int|
                0 <= j < old(self).agents@.len() ==> (#[trigger] final(self).agents@[j]).0 == old(
                    self,
                ).agents@[j].0,
            !has_session(old(self).agents@, to) ==> r is Err && final(self).agents@ == old(
                self,
            ).agents@,
            has_session(old(self).agents@, to) ==> ({
                let i = spec_session_idx(old(self).agents@, to);
                &&& forall|j: int|
                    0 <= j < old(self).agents@.len() && j != i
                        ==> (#[trigger] final(self).agents@[j]) == old(self).agents@[j]
                &&& (module == GossipModule::ShardedRecent ==> final(self).agents@[i].1.historical
                    == old(self).agents@[i].1.historical)
                &&& (module == GossipModule::ShardedHistorical
                    ==> final(self).agents@[i].1.recent == old(self).agents@[i].1.recent)
            }),
    {
        let n = self.agents.len();
        let mut i: usize = 0;
        while i < n
            invariant
                n == self.agents@.len(),
                i <= n,
                self.agents@ == old(self).agents@,
                forall|j: int| 0 <= j < i ==> (#[trigger] self.agents@[j]).0 != to,
            decreases n - i,
        {
            if self.agents[i].0 == to {
                proof {
                    assert(first_session_at(old(self).agents@, to, i as int));
                    lemma_session_idx(old(self).agents@, to, i as int);
                }
                let entry = &mut self.agents[i];
                let r = match module {
                    GossipModule::ShardedRecent => entry.1.recent.process_incoming(from, msg),
                    GossipModule::ShardedHistorical => entry.1.historical.process_incoming(
                        from,
                        msg,
                    ),
                };
                return r;
            }
            i = i + 1;
        }
        proof {
            if has_session(old(self).agents@, to) {
                let w = choose|w: int|
                    0 <= w < old(self).agents@.len() && (#[trigger] old(self).agents@[w]).0 == to;
                assert(self.agents@[w].0 != to);
            }
        }
        Err(0)
    }
}

} // verus!
