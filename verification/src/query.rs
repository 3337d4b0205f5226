//! The query responder: the four lookups a real sync engine issues over the
//! wire, answered from the index snapshot as if by a chosen simulated agent.
//!
//! All operations are pure reads of the snapshot. Absence is a normal
//! outcome, reported as an empty or `None` result, never as an error.

use vstd::prelude::*;

use crate::data::{copy_peer_info, peer_like, PeerInfo};
use crate::index::GeneratedData;
use crate::ops::DerivedOp;
use crate::ring::ArcInterval;

verus! {

/// Whether some announcement names the agent.
pub open spec fn has_agent(infos: Seq<PeerInfo>, agent: u64) -> bool {
    exists|i: int| 0 <= i < infos.len() && (#[trigger] infos[i]).agent == agent
}

/// Whether `i` is the first announcement naming the agent.
pub open spec fn first_agent_at(infos: Seq<PeerInfo>, agent: u64, i: int) -> bool {
    &&& 0 <= i < infos.len()
    &&& infos[i].agent == agent
    &&& forall|j: int| 0 <= j < i ==> (#[trigger] infos[j]).agent != agent
}

/// The position of the first announcement naming the agent; meaningful only
/// when one exists.
pub open spec fn spec_agent_idx(infos: Seq<PeerInfo>, agent: u64) -> int {
    choose|i: int| first_agent_at(infos, agent, i)
}

/// The first position naming an agent is unique, and it is what
/// `spec_agent_idx` denotes.
pub proof fn lemma_agent_idx(infos: Seq<PeerInfo>, agent: u64, i: int)
    requires
        first_agent_at(infos, agent, i),
    ensures
        spec_agent_idx(infos, agent) == i,
{
    let c = spec_agent_idx(infos, agent);
    assert(first_agent_at(infos, agent, c));
    if c < i {
        assert(infos[c].agent != agent);
    } else if i < c {
        assert(infos[i].agent != agent);
    }
}

/// Find the first announcement naming the agent.
pub fn find_agent(infos: &Vec<PeerInfo>, agent: u64) -> (r: Option<usize>)
    ensures
        match r {
            Some(k) => first_agent_at(infos@, agent, k as int),
            None => !has_agent(infos@, agent),
        },
{
    let mut i: usize = 0;
    while i < infos.len()
        invariant
            i <= infos@.len(),
            forall|j: int| 0 <= j < i ==> (#[trigger] infos@[j]).agent != agent,
        decreases infos@.len() - i,
    {
        if infos[i].agent == agent {
            return Some(i);
        }
        i = i + 1;
    }
    None
}

/// The predicate selecting ops inside one queried interval and time window;
/// the window includes its start and excludes its end.
pub open spec fn window_pred(iv: ArcInterval, ws: u64, we: u64) -> spec_fn(DerivedOp) -> bool {
    |o: DerivedOp| iv.spec_contains(o.spec_loc()) && ws <= o.timestamp < we
}

/// The op hashes a held-op list yields for a queried interval set and time
/// window: for each interval in order, the held ops inside it and inside
/// the window, in held order.
pub open spec fn spec_window_hashes(
    held: Seq<DerivedOp>,
    ivs: Seq<ArcInterval>,
    ws: u64,
    we: u64,
) -> Seq<u64>
    decreases ivs.len(),
{
    if ivs.len() == 0 {
        seq![]
    } else {
        spec_window_hashes(held, ivs.drop_last(), ws, we) + held.filter(
            window_pred(ivs.last(), ws, we),
        ).map_values(|o: DerivedOp| o.op_hash)
    }
}

impl GeneratedData {
    /// Answer a peer lookup as `authority`: the target's announcement, if
    /// the caller-supplied list of newly learned peers names it, or else if
    /// the authority's own arc contains the target's arc center. Absence is
    /// a normal "not found".
    pub fn peer_get(&self, authority: u64, target: u64, learned: &Vec<PeerInfo>) -> (r: Option<
        PeerInfo,
    >)
        requires
            self.wf(),
            has_agent(self.agent_info@, authority),
        ensures
            ({
                let infos = self.agent_info@;
                let auth_arc = infos[spec_agent_idx(infos, authority)].storage_arc;
                &&& (r is Some <==> has_agent(learned@, target) || (has_agent(infos, target)
                    && auth_arc.spec_contains(
                    infos[spec_agent_idx(infos, target)].storage_arc.center,
                )))
                &&& match r {
                    Some(p) => {
                        if has_agent(learned@, target) {
                            peer_like(p, learned@[spec_agent_idx(learned@, target)])
                        } else {
                            peer_like(p, infos[spec_agent_idx(infos, target)])
                        }
                    },
                    None => true,
                }
            }),
    {
        if let Some(i) = find_agent(learned, target) {
            proof {
                lemma_agent_idx(learned@, target, i as int);
            }
            return Some(copy_peer_info(&learned[i]));
        }
        let ka = match find_agent(&self.agent_info, authority) {
            Some(k) => k,
            None => {
                return None;
            },
        };
        proof {
            lemma_agent_idx(self.agent_info@, authority, ka as int);
        }
        let kt = match find_agent(&self.agent_info, target) {
            Some(k) => k,
            None => {
                return None;
            },
        };
        proof {
            lemma_agent_idx(self.agent_info@, target, kt as int);
        }
        let target_center = self.agent_info[kt].storage_arc.center;
        if self.agent_info[ka].storage_arc.contains(target_center) {
            Some(copy_peer_info(&self.agent_info[kt]))
        } else {
            None
        }
    }

    /// Answer an op-hash range query as `authority`: for each interval of
    /// the queried arc set, the hashes of the agent's held ops whose
    /// location lies inside the interval (wraparound included) and whose
    /// timestamp lies inside `[window_start, window_end)`, together with
    /// the queried window; `None` when nothing matches.
    pub fn op_hash_query(
        &self,
        authority: u64,
        intervals: &Vec<ArcInterval>,
        window_start: u64,
        window_end: u64,
    ) -> (r: Option<(Vec<u64>, (u64, u64))>)
        requires
            self.wf(),
            has_agent(self.agent_info@, authority),
        ensures
            ({
                let k = spec_agent_idx(self.agent_info@, authority);
                let hs = spec_window_hashes(
                    self.agent_held_ops@[k]@,
                    intervals@,
                    window_start,
                    window_end,
                );
                match r {
                    Some(pair) => pair.0@ == hs && hs.len() > 0 && pair.1 == (
                        window_start,
                        window_end,
                    ),
                    None => hs.len() == 0,
                }
            }),
    {
        let ka = match find_agent(&self.agent_info, authority) {
            Some(k) => k,
            None => {
                proof {
                    assert(false);
                }
                return None;
            },
        };
        proof {
            lemma_agent_idx(self.agent_info@, authority, ka as int);
        }
        let held = &self.agent_held_ops[ka];
        let mut out: Vec<u64> = Vec::new();
        let mut v: usize = 0;
        while v < intervals.len()
            invariant
                v <= intervals@.len(),
                out@ == spec_window_hashes(held@, intervals@.take(v as int), window_start, window_end),
            decreases intervals@.len() - v,
        {
            let iv = intervals[v];
            let ghost pred = window_pred(iv, window_start, window_end);
            let ghost prefix = out@;
            let mut i: usize = 0;
            while i < held.len()
                invariant
                    i <= held@.len(),
                    iv == intervals@[v as int],
                    v < intervals@.len(),
                    pred == window_pred(iv, window_start, window_end),
                    out@ == prefix + held@.take(i as int).filter(pred).map_values(
                        |o: DerivedOp| o.op_hash,
                    ),
                decreases held@.len() - i,
            {
                let o = held[i];
                let in_window = iv.contains_loc(o.loc()) && window_start <= o.timestamp
                    && o.timestamp < window_end;
                proof {
                    reveal(Seq::filter);
                    assert(held@.take(i + 1).drop_last() =~= held@.take(i as int));
                    assert(held@.take(i + 1).last() == held@[i as int]);
                    assert(pred(held@[i as int]) == in_window);
                    if in_window {
                        assert(held@.take(i + 1).filter(pred) == held@.take(i as int).filter(
                            pred,
                        ).push(held@[i as int]));
                    } else {
                        assert(held@.take(i + 1).filter(pred) == held@.take(i as int).filter(pred));
                    }
                }
                if in_window {
                    out.push(o.op_hash);
                    proof {
                        assert(out@ =~= prefix + held@.take(i + 1).filter(pred).map_values(
                            |x: DerivedOp| x.op_hash,
                        ));
                    }
                } else {
                    proof {
                        assert(out@ =~= prefix + held@.take(i + 1).filter(pred).map_values(
                            |x: DerivedOp| x.op_hash,
                        ));
                    }
                }
                i = i + 1;
            }
            proof {
                assert(held@.take(held@.len() as int) =~= held@);
                assert(intervals@.take(v + 1).drop_last() =~= intervals@.take(v as int));
                assert(intervals@.take(v + 1).last() == intervals@[v as int]);
            }
            v = v + 1;
        }
        proof {
            assert(intervals@.take(intervals@.len() as int) =~= intervals@);
        }
        if out.len() > 0 {
            Some((out, (window_start, window_end)))
        } else {
            None
        }
    }
}


/// A held announcement ranked for a proximity query: its ring distance to
/// the query location, and its position in the announcement list, which
/// breaks distance ties deterministically.
#[derive(Clone, Copy, Debug, PartialEq, Eq, Structural)]
pub struct RankedPeer {
    pub dist: u32,
    pub idx: usize,
}

/// The (distance, position) order on ranked peers.
pub open spec fn rank_le(a: RankedPeer, b: RankedPeer) -> bool {
    a.dist < b.dist || (a.dist == b.dist && a.idx <= b.idx)
}

/// A sequence of ranked peers in (distance, position) order.
pub open spec fn ranks_sorted(s: Seq<RankedPeer>) -> bool {
    forall|i: int, j: int| 0 <= i < j < s.len() ==> rank_le(#[trigger] s[i], #[trigger] s[j])
}

/// Stable insertion of a ranked peer into an ordered sequence.
pub open spec fn spec_insert_rank(s: Seq<RankedPeer>, o: RankedPeer) -> Seq<RankedPeer>
    decreases s.len(),
{
    if s.len() == 0 {
        seq![o]
    } else if rank_le(s.last(), o) {
        s.push(o)
    } else {
        spec_insert_rank(s.drop_last(), o).push(s.last())
    }
}

/// Stable insertion sort of ranked peers.
pub open spec fn spec_sort_ranks(s: Seq<RankedPeer>) -> Seq<RankedPeer>
    decreases s.len(),
{
    if s.len() == 0 {
        seq![]
    } else {
        spec_insert_rank(spec_sort_ranks(s.drop_last()), s.last())
    }
}

/// Where the stable insertion lands.
proof fn lemma_insert_rank_at(s: Seq<RankedPeer>, o: RankedPeer, j: int)
    requires
        0 <= j <= s.len(),
        forall|m: int| j <= m < s.len() ==> !rank_le(#[trigger] s[m], o),
        j > 0 ==> rank_le(s[j - 1], o),
    ensures
        spec_insert_rank(s, o) == s.take(j) + seq![o] + s.skip(j),
    decreases s.len(),
{
    if s.len() == j {
        if s.len() == 0 {
            assert(spec_insert_rank(s, o) =~= s.take(j) + seq![o] + s.skip(j));
        } else {
            assert(rank_le(s.last(), o));
            assert(spec_insert_rank(s, o) =~= s.take(j) + seq![o] + s.skip(j));
        }
    } else {
        assert(!rank_le(s.last(), o));
        let d = s.drop_last();
        lemma_insert_rank_at(d, o, j);
        assert(spec_insert_rank(s, o) =~= s.take(j) + seq![o] + s.skip(j));
    }
}

/// Insertion keeps the order and adds exactly the new ranked peer.
proof fn lemma_insert_rank_ensures(s: Seq<RankedPeer>, o: RankedPeer)
    requires
        ranks_sorted(s),
    ensures
        ranks_sorted(spec_insert_rank(s, o)),
        spec_insert_rank(s, o).len() == s.len() + 1,
        forall|x: RankedPeer|
            #[trigger] spec_insert_rank(s, o).contains(x) <==> (s.contains(x) || x == o),
    decreases s.len(),
{
    let r = spec_insert_rank(s, o);
    if s.len() == 0 {
        assert forall|x: RankedPeer| r.contains(x) implies (s.contains(x) || x == o) by {
            assert(r[0] == o);
        }
        assert(r[0] == o);
        assert(r.contains(o));
    } else if rank_le(s.last(), o) {
        assert forall|i: int, j: int| 0 <= i < j < r.len() implies rank_le(r[i], r[j]) by {
            if j >= s.len() && i < s.len() {
                assert(rank_le(s[i], s.last()) || i == s.len() - 1);
            }
        }
        assert forall|x: RankedPeer| r.contains(x) implies (s.contains(x) || x == o) by {
            let i = choose|i: int| 0 <= i < r.len() && r[i] == x;
            if i < s.len() {
                assert(s[i] == x);
            }
        }
        assert forall|x: RankedPeer| s.contains(x) || x == o implies r.contains(x) by {
            if s.contains(x) {
                let i = choose|i: int| 0 <= i < s.len() && s[i] == x;
                assert(r[i] == x);
            } else {
                assert(r[s.len() as int] == o);
            }
        }
    } else {
        let d = s.drop_last();
        assert(ranks_sorted(d)) by {
            assert forall|i: int, j: int| 0 <= i < j < d.len() implies rank_le(d[i], d[j]) by {
                assert(rank_le(s[i], s[j]));
            }
        }
        lemma_insert_rank_ensures(d, o);
        let q = spec_insert_rank(d, o);
        assert(r == q.push(s.last()));
        assert forall|i: int, j: int| 0 <= i < j < r.len() implies rank_le(r[i], r[j]) by {
            if j >= q.len() {
                assert(q.contains(q[i]));
                if q[i] == o {
                    assert(!rank_le(s.last(), o));
                    assert(rank_le(o, s.last()));
                } else {
                    assert(d.contains(q[i]));
                    let m = choose|m: int| 0 <= m < d.len() && d[m] == q[i];
                    assert(rank_le(s[m], s[s.len() - 1]) || m == s.len() - 1);
                }
            }
        }
        assert forall|x: RankedPeer| r.contains(x) implies (s.contains(x) || x == o) by {
            let i = choose|i: int| 0 <= i < r.len() && r[i] == x;
            if i < q.len() {
                assert(q[i] == x);
                assert(q.contains(x));
                if d.contains(x) {
                    let m = choose|m: int| 0 <= m < d.len() && d[m] == x;
                    assert(s[m] == x);
                }
            } else {
                assert(x == s.last());
                assert(s[s.len() - 1] == x);
            }
        }
        assert forall|x: RankedPeer| s.contains(x) || x == o implies r.contains(x) by {
            if x == o || d.contains(x) {
                assert(spec_insert_rank(d, o).contains(x));
                let m = choose|m: int| 0 <= m < q.len() && q[m] == x;
                assert(r[m] == x);
            } else {
                let m = choose|m: int| 0 <= m < s.len() && s[m] == x;
                if m < d.len() {
                    assert(d[m] == x);
                } else {
                    assert(r[r.len() - 1] == s.last());
                }
            }
        }
    }
}

/// The sort orders the ranked peers and keeps exactly those that went in.
pub proof fn lemma_sort_ranks_ensures(s: Seq<RankedPeer>)
    ensures
        ranks_sorted(spec_sort_ranks(s)),
        spec_sort_ranks(s).len() == s.len(),
        forall|x: RankedPeer| #[trigger] spec_sort_ranks(s).contains(x) <==> s.contains(x),
    decreases s.len(),
{
    if s.len() > 0 {
        let d = s.drop_last();
        lemma_sort_ranks_ensures(d);
        lemma_insert_rank_ensures(spec_sort_ranks(d), s.last());
        assert forall|x: RankedPeer| #[trigger] spec_sort_ranks(s).contains(x) implies s.contains(
            x,
        ) by {
            if d.contains(x) {
                let m = choose|m: int| 0 <= m < d.len() && d[m] == x;
                assert(s[m] == x);
            } else {
                assert(s[s.len() - 1] == x);
            }
        }
        assert forall|x: RankedPeer| s.contains(x) implies #[trigger] spec_sort_ranks(s).contains(
            x,
        ) by {
            let m = choose|m: int| 0 <= m < s.len() && s[m] == x;
            if m < d.len() {
                assert(d[m] == x);
                assert(d.contains(x));
                assert(spec_insert_rank(spec_sort_ranks(d), s.last()).contains(x));
            } else {
                assert(x == s.last());
                assert(spec_insert_rank(spec_sort_ranks(d), s.last()).contains(x));
            }
        }
    }
}

/// Insert a ranked peer into an ordered vector, stably.
pub fn insert_rank(out: &mut Vec<RankedPeer>, o: RankedPeer)
    ensures
        final(out)@ == spec_insert_rank(old(out)@, o),
{
    let mut j: usize = out.len();
    while j > 0 && !(out[j - 1].dist < o.dist || (out[j - 1].dist == o.dist && out[j - 1].idx
        <= o.idx))
        invariant
            j <= out@.len(),
            out@ == old(out)@,
            forall|m: int| j <= m < out@.len() ==> !rank_le(#[trigger] out@[m], o),
        decreases j,
    {
        j = j - 1;
    }
    proof {
        lemma_insert_rank_at(out@, o, j as int);
    }
    out.insert(j, o);
    proof {
        assert(final(out)@ =~= old(out)@.take(j as int) + seq![o] + old(out)@.skip(j as int));
    }
}

/// The ranked form of a held-peer list for a query location.
pub open spec fn spec_ranked(infos: Seq<PeerInfo>, held: Seq<usize>, loc: u32) -> Seq<RankedPeer>
    decreases held.len(),
{
    if held.len() == 0 {
        seq![]
    } else {
        spec_ranked(infos, held.drop_last(), loc) + seq![
            RankedPeer {
                dist: crate::ring::ring_dist(loc, infos[held.last() as int].storage_arc.center),
                idx: held.last(),
            },
        ]
    }
}

/// The ranked form lists one entry per held position, in order.
pub proof fn lemma_ranked_fields(infos: Seq<PeerInfo>, held: Seq<usize>, loc: u32)
    ensures
        spec_ranked(infos, held, loc).len() == held.len(),
        forall|u: int|
            0 <= u < held.len() ==> (#[trigger] spec_ranked(infos, held, loc)[u]) == (RankedPeer {
                dist: crate::ring::ring_dist(loc, infos[held[u] as int].storage_arc.center),
                idx: held[u],
            }),
    decreases held.len(),
{
    if held.len() > 0 {
        lemma_ranked_fields(infos, held.drop_last(), loc);
        assert forall|u: int| 0 <= u < held.len() implies (#[trigger] spec_ranked(
            infos,
            held,
            loc,
        )[u]) == (RankedPeer {
            dist: crate::ring::ring_dist(loc, infos[held[u] as int].storage_arc.center),
            idx: held[u],
        }) by {
            if u < held.len() - 1 {
                assert(spec_ranked(infos, held, loc)[u] == spec_ranked(
                    infos,
                    held.drop_last(),
                    loc,
                )[u]);
                assert(held.drop_last()[u] == held[u]);
            }
        }
    }
}

/// Every position a held-peer list names is a real announcement.
pub proof fn lemma_held_peer_idxs_valid(infos: Seq<PeerInfo>, arc: crate::ring::StorageArc)
    ensures
        forall|m: int|
            0 <= m < crate::index::spec_held_peer_idxs(infos, arc).len() ==> (
            #[trigger] crate::index::spec_held_peer_idxs(infos, arc)[m]) < infos.len(),
    decreases infos.len(),
{
    if infos.len() > 0 {
        lemma_held_peer_idxs_valid(infos.drop_last(), arc);
        let d = crate::index::spec_held_peer_idxs(infos.drop_last(), arc);
        assert forall|m: int|
            0 <= m < crate::index::spec_held_peer_idxs(infos, arc).len() implies (
        #[trigger] crate::index::spec_held_peer_idxs(infos, arc)[m]) < infos.len() by {
            if m < d.len() {
                assert(crate::index::spec_held_peer_idxs(infos, arc)[m] == d[m]);
            }
        }
    }
}

impl GeneratedData {
    /// Answer a peer discovery query as `authority`: up to eight of the
    /// announcements that agent holds, ordered by ring distance from the
    /// query location, nearest first, distance ties broken by announcement
    /// position.
    pub fn peer_query(&self, authority: u64, loc: u32) -> (r: Vec<PeerInfo>)
        requires
            self.wf(),
            has_agent(self.agent_info@, authority),
        ensures
            ({
                let k = spec_agent_idx(self.agent_info@, authority);
                let ranked = spec_sort_ranks(
                    spec_ranked(self.agent_info@, self.all_held_agents@[k]@, loc),
                );
                &&& r@.len() == if ranked.len() < 8 {
                    ranked.len()
                } else {
                    8
                }
                &&& forall|m: int|
                    0 <= m < r@.len() ==> (#[trigger] ranked[m]).idx < self.agent_info@.len()
                        && peer_like(r@[m], self.agent_info@[ranked[m].idx as int])
                &&& forall|m: int, n: int|
                    0 <= m < n < r@.len() ==> crate::ring::ring_dist(
                        loc,
                        (#[trigger] r@[m]).storage_arc.center,
                    ) <= crate::ring::ring_dist(loc, (#[trigger] r@[n]).storage_arc.center)
            }),
    {
        let ka = match find_agent(&self.agent_info, authority) {
            Some(k) => k,
            None => {
                proof {
                    assert(false);
                }
                return Vec::new();
            },
        };
        proof {
            lemma_agent_idx(self.agent_info@, authority, ka as int);
        }
        let held = &self.all_held_agents[ka];
        proof {
            lemma_held_peer_idxs_valid(self.agent_info@, self.agent_info@[ka as int].storage_arc);
        }
        let mut ranked: Vec<RankedPeer> = Vec::new();
        let mut m: usize = 0;
        while m < held.len()
            invariant
                m <= held@.len(),
                forall|t: int| 0 <= t < held@.len() ==> (#[trigger] held@[t]) < self.agent_info@.len(),
                ranked@ == spec_ranked(self.agent_info@, held@.take(m as int), loc),
            decreases held@.len() - m,
        {
            proof {
                assert(held@.take(m + 1).drop_last() =~= held@.take(m as int));
                assert(held@.take(m + 1).last() == held@[m as int]);
            }
            let idx = held[m];
            let dist = crate::ring::shortest_arc_distance(
                loc,
                self.agent_info[idx].storage_arc.center,
            );
            ranked.push(RankedPeer { dist, idx });
            m = m + 1;
        }
        proof {
            assert(held@.take(held@.len() as int) =~= held@);
        }
        let mut sorted: Vec<RankedPeer> = Vec::new();
        let mut i: usize = 0;
        while i < ranked.len()
            invariant
                i <= ranked@.len(),
                sorted@ == spec_sort_ranks(ranked@.take(i as int)),
            decreases ranked@.len() - i,
        {
            insert_rank(&mut sorted, ranked[i]);
            proof {
                assert(ranked@.take(i + 1).drop_last() =~= ranked@.take(i as int));
                assert(ranked@.take(i + 1).last() == ranked@[i as int]);
            }
            i = i + 1;
        }
        proof {
            assert(ranked@.take(ranked@.len() as int) =~= ranked@);
            lemma_sort_ranks_ensures(ranked@);
            lemma_ranked_fields(self.agent_info@, held@, loc);
            assert forall|t: int| 0 <= t < sorted@.len() implies (#[trigger] sorted@[t]).idx
                < self.agent_info@.len() by {
                assert(sorted@.contains(sorted@[t]));
                assert(ranked@.contains(sorted@[t]));
                let u = choose|u: int| 0 <= u < ranked@.len() && ranked@[u] == sorted@[t];
                assert(ranked@[u].idx == held@[u]);
            }
        }
        let mut out: Vec<PeerInfo> = Vec::new();
        let mut t: usize = 0;
        let limit = if sorted.len() < 8 {
            sorted.len()
        } else {
            8
        };
        while t < limit
            invariant
                t <= limit,
                limit == if sorted@.len() < 8 {
                    sorted@.len()
                } else {
                    8
                },
                forall|u: int|
                    0 <= u < sorted@.len() ==> (#[trigger] sorted@[u]).idx
                        < self.agent_info@.len(),
                out@.len() == t,
                forall|u: int|
                    0 <= u < t ==> peer_like(
                        #[trigger] out@[u],
                        self.agent_info@[sorted@[u].idx as int],
                    ),
            decreases limit - t,
        {
            let idx = sorted[t].idx;
            out.push(copy_peer_info(&self.agent_info[idx]));
            t = t + 1;
        }
        proof {
            let ghost infos = self.agent_info@;
            let ghost heldg = self.all_held_agents@[ka as int]@;
            assert forall|m: int, n: int| 0 <= m < n < out@.len() implies crate::ring::ring_dist(
                loc,
                (#[trigger] out@[m]).storage_arc.center,
            ) <= crate::ring::ring_dist(loc, (#[trigger] out@[n]).storage_arc.center) by {
                assert(sorted@.contains(sorted@[m]));
                assert(ranked@.contains(sorted@[m]));
                let um = choose|u: int| 0 <= u < ranked@.len() && ranked@[u] == sorted@[m];
                assert(ranked@[um].dist == crate::ring::ring_dist(
                    loc,
                    infos[heldg[um] as int].storage_arc.center,
                ) && ranked@[um].idx == heldg[um]);
                assert(sorted@.contains(sorted@[n]));
                assert(ranked@.contains(sorted@[n]));
                let un = choose|u: int| 0 <= u < ranked@.len() && ranked@[u] == sorted@[n];
                assert(ranked@[un].dist == crate::ring::ring_dist(
                    loc,
                    infos[heldg[un] as int].storage_arc.center,
                ) && ranked@[un].idx == heldg[un]);
                assert(crate::query::rank_le(sorted@[m], sorted@[n]));
                assert(peer_like(out@[m], infos[sorted@[m].idx as int]));
                assert(peer_like(out@[n], infos[sorted@[n].idx as int]));
            }
        }
        out
    }
}


/// The position of the first held op with a given address, scanning
/// forward.
pub open spec fn spec_first_hash(held: Seq<DerivedOp>, h: u64) -> Option<int>
    decreases held.len(),
{
    if held.len() == 0 {
        None
    } else if held[0].op_hash == h {
        Some(0int)
    } else {
        match spec_first_hash(held.drop_first(), h) {
            Some(i) => Some(i + 1),
            None => None,
        }
    }
}

/// What `spec_first_hash` denotes: the first matching position, if any.
pub proof fn lemma_first_hash(held: Seq<DerivedOp>, h: u64)
    ensures
        match spec_first_hash(held, h) {
            Some(i) => 0 <= i < held.len() && held[i].op_hash == h && forall|j: int|
                0 <= j < i ==> (#[trigger] held[j]).op_hash != h,
            None => forall|j: int| 0 <= j < held.len() ==> (#[trigger] held[j]).op_hash != h,
        },
    decreases held.len(),
{
    if held.len() > 0 && held[0].op_hash != h {
        lemma_first_hash(held.drop_first(), h);
        let d = held.drop_first();
        match spec_first_hash(d, h) {
            Some(i) => {
                assert forall|j: int| 0 <= j < i + 1 implies (#[trigger] held[j]).op_hash != h by {
                    if j > 0 {
                        assert(d[j - 1].op_hash != h);
                    }
                }
            },
            None => {
                assert forall|j: int| 0 <= j < held.len() implies (#[trigger] held[j]).op_hash
                    != h by {
                    if j > 0 {
                        assert(d[j - 1].op_hash != h);
                    }
                }
            },
        }
    }
}

/// A first matching position determines `spec_first_hash`.
pub proof fn lemma_first_hash_is(held: Seq<DerivedOp>, h: u64, i: int)
    requires
        0 <= i < held.len(),
        held[i].op_hash == h,
        forall|j: int| 0 <= j < i ==> (#[trigger] held[j]).op_hash != h,
    ensures
        spec_first_hash(held, h) == Some(i),
{
    lemma_first_hash(held, h);
    match spec_first_hash(held, h) {
        Some(c) => {
            if c < i {
                assert(held[c].op_hash != h);
            } else if i < c {
                assert(held[i].op_hash != h);
            }
        },
        None => {
            assert(held[i].op_hash != h);
        },
    }
}

/// Find the first held op with a given address.
pub fn find_op(held: &Vec<DerivedOp>, h: u64) -> (r: Option<usize>)
    ensures
        match r {
            Some(i) => spec_first_hash(held@, h) == Some(i as int),
            None => spec_first_hash(held@, h) is None,
        },
{
    let mut i: usize = 0;
    while i < held.len()
        invariant
            i <= held@.len(),
            forall|j: int| 0 <= j < i ==> (#[trigger] held@[j]).op_hash != h,
        decreases held@.len() - i,
    {
        if held[i].op_hash == h {
            proof {
                lemma_first_hash_is(held@, h, i as int);
            }
            return Some(i);
        }
        i = i + 1;
    }
    proof {
        lemma_first_hash(held@, h);
        if spec_first_hash(held@, h) is Some {
            let c = spec_first_hash(held@, h)->0;
            assert(held@[c].op_hash != h);
        }
    }
    None
}

/// The held ops a fetch resolves, one per found hash, in request order.
pub open spec fn spec_fetch_refs(held: Seq<DerivedOp>, hashes: Seq<u64>) -> Seq<DerivedOp>
    decreases hashes.len(),
{
    if hashes.len() == 0 {
        seq![]
    } else {
        spec_fetch_refs(held, hashes.drop_last()) + match spec_first_hash(held, hashes.last()) {
            Some(i) => seq![held[i]],
            None => seq![],
        }
    }
}

/// An op's wire payload: the record's header and signature, with the
/// content included only when its visibility allows.
#[derive(Clone, Debug, PartialEq, Eq)]
pub struct WireOp {
    pub op_hash: u64,
    pub op_type: crate::ops::OpType,
    pub header: crate::data::Header,
    pub signature: u64,
    pub entry: Option<Vec<u8>>,
}

/// A fetched wire payload faithfully renders its op: same addresses and
/// type, the record's header and signature, and the content exactly when
/// the record is public and bears one.
#[verifier::opaque]
pub open spec fn fetch_match(w: WireOp, o: DerivedOp, chains: Seq<crate::chain::Chain>) -> bool {
    &&& crate::index::op_valid(o, chains)
    &&& {
        let rec = chains[o.chain_idx as int].records@[o.record_idx as int];
        &&& w.op_hash == o.op_hash
        &&& w.op_type == o.op_type
        &&& crate::data::header_like(w.header, rec.header)
        &&& w.signature == rec.signature
        &&& if rec.spec_is_public() && rec.entry is Some {
            w.entry is Some && w.entry->0@ == rec.entry->0@
        } else {
            w.entry is None
        }
    }
}

/// Elementwise faithfulness of a fetched payload list.
pub open spec fn fetch_matches(
    out: Seq<WireOp>,
    ops: Seq<DerivedOp>,
    chains: Seq<crate::chain::Chain>,
) -> bool {
    &&& out.len() == ops.len()
    &&& forall|m: int| 0 <= m < ops.len() ==> fetch_match(#[trigger] out[m], ops[m], chains)
}

impl GeneratedData {
    /// Answer an op payload fetch as `authority`: for each requested hash
    /// that names one of the agent's held ops, the op's wire payload, in
    /// request order. Hashes the agent does not hold are skipped; content
    /// is included only for public records.
    #[verifier::rlimit(50)]
    pub fn op_fetch(&self, authority: u64, hashes: &Vec<u64>) -> (r: Vec<WireOp>)
        requires
            self.wf(),
            has_agent(self.agent_info@, authority),
        ensures
            ({
                let k = spec_agent_idx(self.agent_info@, authority);
                fetch_matches(
                    r@,
                    spec_fetch_refs(self.agent_held_ops@[k]@, hashes@),
                    self.data@,
                )
            }),
    {
        let ka = match find_agent(&self.agent_info, authority) {
            Some(k) => k,
            None => {
                proof {
                    assert(false);
                }
                return Vec::new();
            },
        };
        proof {
            lemma_agent_idx(self.agent_info@, authority, ka as int);
            self.lemma_snapshot_ops_valid();
        }
        let held = &self.agent_held_ops[ka];
        let mut out: Vec<WireOp> = Vec::new();
        let mut t: usize = 0;
        while t < hashes.len()
            invariant
                t <= hashes@.len(),
                crate::index::ops_valid(held@, self.data@),
                fetch_matches(out@, spec_fetch_refs(held@, hashes@.take(t as int)), self.data@),
            decreases hashes@.len() - t,
        {
            proof {
                assert(hashes@.take(t + 1).drop_last() =~= hashes@.take(t as int));
                assert(hashes@.take(t + 1).last() == hashes@[t as int]);
            }
            let h = hashes[t];
            let ghost pre = spec_fetch_refs(held@, hashes@.take(t as int));
            let ghost now = spec_fetch_refs(held@, hashes@.take(t + 1));
            if let Some(i) = find_op(held, h) {
                proof {
                    lemma_first_hash(held@, h);
                }
                let o = held[i];
                proof {
                    assert(crate::index::op_valid(o, self.data@));
                    assert(o.chain_idx < self.data@.len() && o.record_idx < self.data@[
                        o.chain_idx as int
                    ].records@.len()) by {
                        reveal(crate::index::op_valid);
                    }
                    assert(now == pre + seq![held@[i as int]]);
                }
                let rec = &self.data[o.chain_idx].records[o.record_idx];
                let entry: Option<Vec<u8>> = if rec.is_public() {
                    match &rec.entry {
                        Some(e) => Some(crate::data::copy_bytes(e)),
                        None => None,
                    }
                } else {
                    None
                };
                let w = WireOp {
                    op_hash: o.op_hash,
                    op_type: o.op_type,
                    header: crate::data::copy_header(&rec.header),
                    signature: rec.signature,
                    entry,
                };
                proof {
                    reveal(fetch_match);
                    assert(fetch_match(w, o, self.data@));
                }
                out.push(w);
                proof {
                    assert forall|m: int| 0 <= m < now.len() implies fetch_match(
                        #[trigger] out@[m],
                        now[m],
                        self.data@,
                    ) by {
                        if m < pre.len() {
                            assert(fetch_match(out@[m], pre[m], self.data@));
                        }
                    }
                    assert(fetch_matches(out@, now, self.data@));
                }
            } else {
                proof {
                    assert(now =~= pre);
                }
            }
            t = t + 1;
        }
        proof {
            assert(hashes@.take(hashes@.len() as int) =~= hashes@);
        }
        out
    }
}

/// Whether `i` is the first direct-lookup entry with the key.
pub open spec fn first_key_at(
    refs: Seq<crate::index::AnyRef>,
    key: crate::data::AnyDhtHash,
    i: int,
) -> bool {
    &&& 0 <= i < refs.len()
    &&& refs[i].key == key
    &&& forall|j: int| 0 <= j < i ==> (#[trigger] refs[j]).key != key
}

/// Whether some direct-lookup entry has the key.
pub open spec fn has_key(refs: Seq<crate::index::AnyRef>, key: crate::data::AnyDhtHash) -> bool {
    exists|i: int| 0 <= i < refs.len() && (#[trigger] refs[i]).key == key
}

/// Every direct-lookup entry of a valid held-op list references the
/// dataset correctly.
pub proof fn lemma_any_refs_valid(held: Seq<DerivedOp>, chains: Seq<crate::chain::Chain>)
    requires
        crate::index::ops_valid(held, chains),
    ensures
        forall|m: int|
            0 <= m < crate::index::spec_any_refs(held).len() ==> {
                let rf = #[trigger] crate::index::spec_any_refs(held)[m];
                rf.chain_idx < chains.len() && rf.record_idx < chains[
                    rf.chain_idx as int
                ].records@.len()
            },
    decreases held.len(),
{
    reveal(crate::index::op_valid);
    if held.len() > 0 {
        let d = held.drop_last();
        assert(crate::index::ops_valid(d, chains)) by {
            assert forall|i: int| 0 <= i < d.len() implies crate::index::op_valid(
                #[trigger] d[i],
                chains,
            ) by {
                assert(crate::index::op_valid(held[i], chains));
            }
        }
        lemma_any_refs_valid(d, chains);
        let dr = crate::index::spec_any_refs(d);
        assert(crate::index::op_valid(held[held.len() - 1], chains));
        assert forall|m: int| 0 <= m < crate::index::spec_any_refs(held).len() implies {
            let rf = #[trigger] crate::index::spec_any_refs(held)[m];
            rf.chain_idx < chains.len() && rf.record_idx < chains[
                rf.chain_idx as int
            ].records@.len()
        } by {
            if m < dr.len() {
                assert(crate::index::spec_any_refs(held)[m] == dr[m]);
            }
        }
    }
}

/// A record as a direct lookup returns it: header, signature, and the
/// content when visibility allows.
#[derive(Clone, Debug, PartialEq, Eq)]
pub struct FetchedRecord {
    pub header: crate::data::Header,
    pub signature: u64,
    pub entry: Option<Vec<u8>>,
}

impl GeneratedData {
    /// Answer a direct get as `authority`: the record the agent's direct
    /// lookup resolves the address to, or nothing. Content is included
    /// only for public records.
    pub fn get(&self, authority: u64, hash: crate::data::AnyDhtHash) -> (r: Option<FetchedRecord>)
        requires
            self.wf(),
            has_agent(self.agent_info@, authority),
        ensures
            ({
                let k = spec_agent_idx(self.agent_info@, authority);
                let refs = self.agent_any_idx@[k]@;
                &&& (r is Some <==> has_key(refs, hash))
                &&& match r {
                    Some(f) => exists|i: int|
                        #![auto]
                        first_key_at(refs, hash, i) && refs[i].chain_idx < self.data@.len()
                            && refs[i].record_idx < self.data@[
                            refs[i].chain_idx as int
                        ].records@.len() && {
                            let rec = self.data@[refs[i].chain_idx as int].records@[
                                refs[i].record_idx as int
                            ];
                            &&& crate::data::header_like(f.header, rec.header)
                            &&& f.signature == rec.signature
                            &&& if rec.spec_is_public() && rec.entry is Some {
                                f.entry is Some && f.entry->0@ == rec.entry->0@
                            } else {
                                f.entry is None
                            }
                        },
                    None => true,
                }
            }),
    {
        let ka = match find_agent(&self.agent_info, authority) {
            Some(k) => k,
            None => {
                proof {
                    assert(false);
                }
                return None;
            },
        };
        proof {
            lemma_agent_idx(self.agent_info@, authority, ka as int);
            self.lemma_snapshot_ops_valid();
            lemma_any_refs_valid(self.agent_held_ops@[ka as int]@, self.data@);
        }
        let refs = &self.agent_any_idx[ka];
        let mut i: usize = 0;
        while i < refs.len()
            invariant
                i <= refs@.len(),
                ka < self.agent_info@.len(),
                ka as int == spec_agent_idx(self.agent_info@, authority),
                self.agent_any_idx@.len() == self.agent_info@.len(),
                refs@ == self.agent_any_idx@[ka as int]@,
                forall|j: int| 0 <= j < i ==> (#[trigger] refs@[j]).key != hash,
                forall|m: int|
                    0 <= m < refs@.len() ==> {
                        let rf = #[trigger] refs@[m];
                        rf.chain_idx < self.data@.len() && rf.record_idx < self.data@[
                            rf.chain_idx as int
                        ].records@.len()
                    },
            decreases refs@.len() - i,
        {
            if refs[i].key == hash {
                proof {
                    assert(first_key_at(refs@, hash, i as int));
                    assert(has_key(refs@, hash));
                }
                let rf = refs[i];
                let rec = &self.data[rf.chain_idx].records[rf.record_idx];
                let entry: Option<Vec<u8>> = if rec.is_public() {
                    match &rec.entry {
                        Some(e) => Some(crate::data::copy_bytes(e)),
                        None => None,
                    }
                } else {
                    None
                };
                let f = FetchedRecord {
                    header: crate::data::copy_header(&rec.header),
                    signature: rec.signature,
                    entry,
                };
                proof {
                    let recg = self.data@[rf.chain_idx as int].records@[rf.record_idx as int];
                    assert(crate::data::header_like(f.header, recg.header));
                    assert(recg.spec_is_public() && recg.entry is Some ==> f.entry is Some
                        && f.entry->0@ == recg.entry->0@);
                    assert(!(recg.spec_is_public() && recg.entry is Some) ==> f.entry is None);
                }
                return Some(f);
            }
            i = i + 1;
        }
        None
    }
}


/// Whether a queried tag prefix matches a link's tag, byte for byte.
pub open spec fn prefix_matches(p: Option<Seq<u8>>, tag: Seq<u8>) -> bool {
    match p {
        Some(pp) => pp.len() <= tag.len() && tag.take(pp.len() as int) == pp,
        None => true,
    }
}

/// Whether one byte list opens the other.
pub fn is_prefix(p: &Vec<u8>, t: &Vec<u8>) -> (r: bool)
    ensures
        r == (p@.len() <= t@.len() && t@.take(p@.len() as int) == p@),
{
    if p.len() > t.len() {
        return false;
    }
    let mut i: usize = 0;
    while i < p.len()
        invariant
            i <= p@.len(),
            p@.len() <= t@.len(),
            forall|j: int| 0 <= j < i ==> t@[j] == p@[j],
        decreases p@.len() - i,
    {
        if t[i] != p[i] {
            proof {
                assert(t@.take(p@.len() as int)[i as int] != p@[i as int]);
            }
            return false;
        }
        i = i + 1;
    }
    proof {
        assert(t@.take(p@.len() as int) =~= p@);
    }
    true
}

/// The predicate selecting the held link ops at a base address whose tag
/// the queried prefix opens.
pub open spec fn link_pred(
    chains: Seq<crate::chain::Chain>,
    base: u64,
    prefix: Option<Seq<u8>>,
) -> spec_fn(DerivedOp) -> bool {
    |o: DerivedOp|
        {
            &&& o.op_type == crate::ops::OpType::RegisterAddLink
            &&& crate::index::op_valid(o, chains)
            &&& match chains[o.chain_idx as int].records@[o.record_idx as int].header.kind {
                crate::data::HeaderKind::CreateLink { base_address, tag, .. } => base_address
                    == base && prefix_matches(prefix, tag@),
                _ => false,
            }
        }
}

/// One answered link: the link header's payload fields and its record's
/// content address.
#[derive(Clone, Debug, PartialEq, Eq)]
pub struct LinkInfo {
    pub target_address: u64,
    pub timestamp: u64,
    pub zome_id: u8,
    pub tag: Vec<u8>,
    pub create_link_hash: u64,
}

/// An answered link faithfully renders its link record.
#[verifier::opaque]
pub open spec fn link_match(l: LinkInfo, o: DerivedOp, chains: Seq<crate::chain::Chain>) -> bool {
    &&& crate::index::op_valid(o, chains)
    &&& {
        let rec = chains[o.chain_idx as int].records@[o.record_idx as int];
        match rec.header.kind {
            crate::data::HeaderKind::CreateLink { target_address, zome_id, tag, .. } => {
                &&& l.target_address == target_address
                &&& l.timestamp == rec.header.timestamp
                &&& l.zome_id == zome_id
                &&& l.tag@ == tag@
                &&& l.create_link_hash == rec.header_hash
            },
            _ => false,
        }
    }
}

/// Elementwise faithfulness of an answered link list.
pub open spec fn link_matches(
    out: Seq<LinkInfo>,
    ops: Seq<DerivedOp>,
    chains: Seq<crate::chain::Chain>,
) -> bool {
    &&& out.len() == ops.len()
    &&& forall|m: int| 0 <= m < ops.len() ==> link_match(#[trigger] out[m], ops[m], chains)
}

impl GeneratedData {
    /// Answer a link query as `authority`: one entry per held link op whose
    /// base matches and whose tag the queried prefix opens, in held order.
    pub fn get_links(&self, authority: u64, base: u64, tag_prefix: Option<&Vec<u8>>) -> (r: Vec<
        LinkInfo,
    >)
        requires
            self.wf(),
            has_agent(self.agent_info@, authority),
        ensures
            ({
                let k = spec_agent_idx(self.agent_info@, authority);
                let gprefix = match tag_prefix {
                    Some(p) => Some(p@),
                    None => None,
                };
                link_matches(
                    r@,
                    self.agent_held_ops@[k]@.filter(link_pred(self.data@, base, gprefix)),
                    self.data@,
                )
            }),
    {
        let ka = match find_agent(&self.agent_info, authority) {
            Some(k) => k,
            None => {
                proof {
                    assert(false);
                }
                return Vec::new();
            },
        };
        proof {
            lemma_agent_idx(self.agent_info@, authority, ka as int);
            self.lemma_snapshot_ops_valid();
        }
        let held = &self.agent_held_ops[ka];
        let ghost gprefix: Option<Seq<u8>> = match tag_prefix {
            Some(p) => Some(p@),
            None => None,
        };
        let ghost pred = link_pred(self.data@, base, gprefix);
        let mut out: Vec<LinkInfo> = Vec::new();
        let mut i: usize = 0;
        while i < held.len()
            invariant
                i <= held@.len(),
                crate::index::ops_valid(held@, self.data@),
                pred == link_pred(self.data@, base, gprefix),
                gprefix == match tag_prefix {
                    Some(p) => Some(p@),
                    None => None,
                },
                link_matches(out@, held@.take(i as int).filter(pred), self.data@),
            decreases held@.len() - i,
        {
            proof {
                assert(held@.take(i + 1).drop_last() =~= held@.take(i as int));
                assert(held@.take(i + 1).last() == held@[i as int]);
            }
            let o = held[i];
            let ghost pre = held@.take(i as int).filter(pred);
            let mut took: bool = false;
            if match o.op_type {
                crate::ops::OpType::RegisterAddLink => true,
                _ => false,
            } {
                proof {
                    assert(crate::index::op_valid(o, self.data@));
                    assert(o.chain_idx < self.data@.len() && o.record_idx < self.data@[
                        o.chain_idx as int
                    ].records@.len()) by {
                        reveal(crate::index::op_valid);
                    }
                }
                let rec = &self.data[o.chain_idx].records[o.record_idx];
                match &rec.header.kind {
                    crate::data::HeaderKind::CreateLink {
                        base_address,
                        target_address,
                        zome_id,
                        tag,
                    } => {
                        if *base_address == base {
                            let pref_ok = match tag_prefix {
                                Some(p) => is_prefix(p, tag),
                                None => true,
                            };
                            if pref_ok {
                                let l = LinkInfo {
                                    target_address: *target_address,
                                    timestamp: rec.header.timestamp,
                                    zome_id: *zome_id,
                                    tag: crate::data::copy_bytes(tag),
                                    create_link_hash: rec.header_hash,
                                };
                                proof {
                                    reveal(link_match);
                                    assert(link_match(l, o, self.data@));
                                }
                                out.push(l);
                                took = true;
                            }
                        }
                    },
                    _ => {},
                }
            }
            proof {
                reveal(Seq::filter);
                assert(pred(held@[i as int]) == took);
                if took {
                    assert(held@.take(i + 1).filter(pred) == pre.push(held@[i as int]));
                    assert forall|m: int|
                        0 <= m < held@.take(i + 1).filter(pred).len() implies link_match(
                        #[trigger] out@[m],
                        held@.take(i + 1).filter(pred)[m],
                        self.data@,
                    ) by {
                        if m < pre.len() {
                            assert(link_match(out@[m], pre[m], self.data@));
                        }
                    }
                } else {
                    assert(held@.take(i + 1).filter(pred) == pre);
                }
            }
            i = i + 1;
        }
        proof {
            assert(held@.take(held@.len() as int) =~= held@);
        }
        out
    }
}

} // verus!
