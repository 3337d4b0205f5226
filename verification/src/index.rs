//! The index snapshot built over a generated dataset.
//!
//! From the per-agent chains and the signed peer announcements, the builder
//! derives every op, orders the ops around the ring, and builds four
//! indices: the ring-ordered op list, the per-agent held-op list (the ops
//! whose location falls inside the agent's storage arc, ordered by location
//! and time), the per-agent peer-visibility list, and the per-agent direct
//! lookup from content or header addresses to records. The snapshot is
//! built once and only read afterwards; each index is pinned exactly to a
//! spec function of the inputs, so rebuilding on the same input yields the
//! same snapshot.

use vstd::prelude::*;

use crate::chain::Chain;
use crate::data::{AnyDhtHash, PeerInfo, Record};
use crate::ops::{
    collect_all_ops, sort_ops, spec_all_ops, spec_chain_ops, spec_derive_ops, spec_sort_ops,
    DerivedOp, OpType,
};
use crate::ring::StorageArc;

verus! {

/// Which other peers an agent holds announcements of: those whose arc
/// center the agent's own storage arc contains. The result lists positions
/// into the announcement list, in announcement order.
pub open spec fn spec_held_peer_idxs(infos: Seq<PeerInfo>, arc: StorageArc) -> Seq<usize>
    decreases infos.len(),
{
    if infos.len() == 0 {
        seq![]
    } else {
        spec_held_peer_idxs(infos.drop_last(), arc) + if arc.spec_contains(
            infos.last().storage_arc.center,
        ) {
            seq![(infos.len() - 1) as usize]
        } else {
            seq![]
        }
    }
}

/// The predicate selecting the ops an arc holds.
pub open spec fn held_pred(arc: StorageArc) -> spec_fn(DerivedOp) -> bool {
    |o: DerivedOp| arc.spec_contains(o.spec_loc())
}

/// A direct-lookup entry: an address and the record it resolves to, by
/// position in the dataset.
#[derive(Clone, Copy, Debug, PartialEq, Eq, Structural)]
pub struct AnyRef {
    pub key: AnyDhtHash,
    pub chain_idx: usize,
    pub record_idx: usize,
}

/// The direct-lookup entries of a held-op list: store-content ops are keyed
/// by their entry address, store-record ops by their header address.
pub open spec fn spec_any_refs(held: Seq<DerivedOp>) -> Seq<AnyRef>
    decreases held.len(),
{
    if held.len() == 0 {
        seq![]
    } else {
        spec_any_refs(held.drop_last()) + match held.last().op_type {
            OpType::StoreEntry => seq![
                AnyRef {
                    key: AnyDhtHash::Entry(held.last().basis),
                    chain_idx: held.last().chain_idx,
                    record_idx: held.last().record_idx,
                },
            ],
            OpType::StoreElement => seq![
                AnyRef {
                    key: AnyDhtHash::Header(held.last().basis),
                    chain_idx: held.last().chain_idx,
                    record_idx: held.last().record_idx,
                },
            ],
            _ => seq![],
        }
    }
}

/// An op correctly references the dataset: its record positions are in
/// range, and it is one of the ops that record derives.
#[verifier::opaque]
pub open spec fn op_valid(o: DerivedOp, chains: Seq<Chain>) -> bool {
    &&& o.chain_idx < chains.len()
    &&& o.record_idx < chains[o.chain_idx as int].records@.len()
    &&& spec_derive_ops(
        chains[o.chain_idx as int].records@[o.record_idx as int],
        o.chain_idx as int,
        o.record_idx as int,
    ).contains(o)
}

/// Every op of the sequence correctly references the dataset.
pub open spec fn ops_valid(ops: Seq<DerivedOp>, chains: Seq<Chain>) -> bool {
    forall|i: int| 0 <= i < ops.len() ==> op_valid(#[trigger] ops[i], chains)
}

/// A vector never holds more elements than `usize` can count.
proof fn lemma_vec_len_bound<T>(v: &Vec<T>)
    ensures
        v@.len() <= usize::MAX,
{
    vstd::std_specs::vec::axiom_spec_len(v);
}

/// Every op a record derives carries that record's position and timestamp.
pub proof fn lemma_derive_fields(r: Record, ci: int, ri: int)
    requires
        0 <= ci <= usize::MAX,
        0 <= ri <= usize::MAX,
    ensures
        forall|m: int|
            0 <= m < spec_derive_ops(r, ci, ri).len() ==> {
                let o = #[trigger] spec_derive_ops(r, ci, ri)[m];
                o.chain_idx == ci && o.record_idx == ri && o.timestamp == r.header.timestamp
            },
{
}

/// Every op of one chain's derivation references that chain correctly.
proof fn lemma_chain_ops_valid(chains: Seq<Chain>, ci: int, n: int)
    requires
        chains.len() <= usize::MAX,
        0 <= ci < chains.len(),
        0 <= n <= chains[ci].records@.len(),
    ensures
        ops_valid(spec_chain_ops(chains[ci].records@.take(n), ci), chains),
    decreases n,
{
    reveal(op_valid);
    let records = chains[ci].records@;
    lemma_vec_len_bound(&chains[ci].records);
    if n > 0 {
        lemma_chain_ops_valid(chains, ci, n - 1);
        assert(records.take(n).drop_last() =~= records.take(n - 1));
        let s = spec_chain_ops(records.take(n - 1), ci);
        let d = spec_derive_ops(records[n - 1], ci, n - 1);
        lemma_derive_fields(records[n - 1], ci, n - 1);
        assert forall|i: int|
            0 <= i < spec_chain_ops(records.take(n), ci).len() implies op_valid(
            #[trigger] spec_chain_ops(records.take(n), ci)[i],
            chains,
        ) by {
            if i < s.len() {
                assert(spec_chain_ops(records.take(n), ci)[i] == s[i]);
            } else {
                let o = spec_chain_ops(records.take(n), ci)[i];
                assert(o == d[i - s.len()]);
                assert(d.contains(o));
            }
        }
    }
}

/// Every derived op of the dataset references it correctly.
pub proof fn lemma_all_ops_valid(chains: Seq<Chain>)
    requires
        chains.len() <= usize::MAX,
    ensures
        ops_valid(spec_all_ops(chains), chains),
    decreases chains.len(),
{
    reveal(op_valid);
    if chains.len() > 0 {
        let d = chains.drop_last();
        lemma_all_ops_valid(d);
        let ci = chains.len() - 1;
        let records = chains[ci].records@;
        lemma_vec_len_bound(&chains[ci].records);
        assert(records.take(records.len() as int) =~= records);
        lemma_chain_ops_valid(chains, ci, records.len() as int);
        let s = spec_all_ops(d);
        let c = spec_chain_ops(records, ci);
        assert forall|i: int|
            0 <= i < spec_all_ops(chains).len() implies op_valid(
            #[trigger] spec_all_ops(chains)[i],
            chains,
        ) by {
            if i < s.len() {
                let o = s[i];
                assert(op_valid(o, d));
                assert(chains[o.chain_idx as int] == d[o.chain_idx as int]);
            } else {
                assert(spec_all_ops(chains)[i] == c[i - s.len()]);
            }
        }
    }
}

/// A filtered sequence only drops elements.
pub proof fn lemma_filter_subset<A>(s: Seq<A>, pred: spec_fn(A) -> bool)
    ensures
        forall|x: A| #[trigger] s.filter(pred).contains(x) ==> s.contains(x),
    decreases s.len(),
{
    reveal(Seq::filter);
    if s.len() > 0 {
        let d = s.drop_last();
        lemma_filter_subset(d, pred);
        assert forall|x: A| #[trigger] s.filter(pred).contains(x) implies s.contains(x) by {
            let f = s.filter(pred);
            let i = choose|i: int| 0 <= i < f.len() && f[i] == x;
            if pred(s.last()) && i == f.len() - 1 {
                assert(s[s.len() - 1] == x);
            } else {
                assert(d.filter(pred).contains(x));
                let j = choose|j: int| 0 <= j < d.len() && d[j] == x;
                assert(s[j] == x);
            }
        }
    }
}

/// The whole simulated dataset with its derived indices; built once,
/// immutable afterwards, shared by every query responder.
#[derive(Debug, PartialEq, Eq)]
pub struct GeneratedData {
    /// The per-agent chains.
    pub data: Vec<Chain>,
    /// The signed peer announcements, one per simulated agent.
    pub agent_info: Vec<PeerInfo>,
    /// Every derived op, ordered by (ring location, timestamp).
    pub ops_by_loc: Vec<DerivedOp>,
    /// For each announcement, which announcements that agent holds, as
    /// positions into `agent_info`.
    pub all_held_agents: Vec<Vec<usize>>,
    /// For each announcement, the ops the agent's arc holds, ordered by
    /// (ring location, timestamp).
    pub agent_held_ops: Vec<Vec<DerivedOp>>,
    /// For each announcement, the direct content and header lookups over
    /// the agent's held ops.
    pub agent_any_idx: Vec<Vec<AnyRef>>,
}

impl GeneratedData {
    /// Correctness of the snapshot: every index equals its defining spec
    /// function of the dataset and announcements. Two snapshots over equal
    /// inputs are therefore equal, index for index.
    pub open spec fn wf(self) -> bool {
        &&& self.ops_by_loc@ == spec_sort_ops(spec_all_ops(self.data@))
        &&& self.all_held_agents@.len() == self.agent_info@.len()
        &&& forall|k: int|
            0 <= k < self.agent_info@.len() ==> (#[trigger] self.all_held_agents@[k])@
                == spec_held_peer_idxs(self.agent_info@, self.agent_info@[k].storage_arc)
        &&& self.agent_held_ops@.len() == self.agent_info@.len()
        &&& forall|k: int|
            0 <= k < self.agent_info@.len() ==> (#[trigger] self.agent_held_ops@[k])@
                == spec_sort_ops(spec_all_ops(self.data@)).filter(
                held_pred(self.agent_info@[k].storage_arc),
            )
        &&& self.agent_any_idx@.len() == self.agent_info@.len()
        &&& forall|k: int|
            0 <= k < self.agent_info@.len() ==> (#[trigger] self.agent_any_idx@[k])@
                == spec_any_refs(self.agent_held_ops@[k]@)
    }

    /// Build the snapshot: derive all ops, order them around the ring, and
    /// scan each agent's arc for its held ops, held peers and direct
    /// lookups. Pure: the result is a function of the inputs alone.
    pub fn new(data: Vec<Chain>, agent_info: Vec<PeerInfo>) -> (r: GeneratedData)
        ensures
            r.wf(),
            r.data == data,
            r.agent_info == agent_info,
    {
        let all = collect_all_ops(&data);
        let ops_by_loc = sort_ops(&all);
        let mut all_held_agents: Vec<Vec<usize>> = Vec::new();
        let mut agent_held_ops: Vec<Vec<DerivedOp>> = Vec::new();
        let mut agent_any_idx: Vec<Vec<AnyRef>> = Vec::new();
        let mut k: usize = 0;
        while k < agent_info.len()
            invariant
                k <= agent_info@.len(),
                ops_by_loc@ == spec_sort_ops(spec_all_ops(data@)),
                all_held_agents@.len() == k,
                agent_held_ops@.len() == k,
                agent_any_idx@.len() == k,
                forall|m: int|
                    0 <= m < k ==> (#[trigger] all_held_agents@[m])@ == spec_held_peer_idxs(
                        agent_info@,
                        agent_info@[m].storage_arc,
                    ),
                forall|m: int|
                    0 <= m < k ==> (#[trigger] agent_held_ops@[m])@ == ops_by_loc@.filter(
                        held_pred(agent_info@[m].storage_arc),
                    ),
                forall|m: int|
                    0 <= m < k ==> (#[trigger] agent_any_idx@[m])@ == spec_any_refs(
                        agent_held_ops@[m]@,
                    ),
            decreases agent_info@.len() - k,
        {
            let arc = agent_info[k].storage_arc;

            let mut held_peers: Vec<usize> = Vec::new();
            let mut j: usize = 0;
            while j < agent_info.len()
                invariant
                    j <= agent_info@.len(),
                    arc == agent_info@[k as int].storage_arc,
                    k < agent_info@.len(),
                    held_peers@ == spec_held_peer_idxs(agent_info@.take(j as int), arc),
                decreases agent_info@.len() - j,
            {
                proof {
                    assert(agent_info@.take(j + 1).drop_last() =~= agent_info@.take(j as int));
                    assert(agent_info@.take(j + 1).last() == agent_info@[j as int]);
                }
                if arc.contains(agent_info[j].storage_arc.center) {
                    held_peers.push(j);
                }
                j = j + 1;
            }
            proof {
                assert(agent_info@.take(agent_info@.len() as int) =~= agent_info@);
            }

            let mut held: Vec<DerivedOp> = Vec::new();
            let mut i: usize = 0;
            while i < ops_by_loc.len()
                invariant
                    i <= ops_by_loc@.len(),
                    held@ == ops_by_loc@.take(i as int).filter(held_pred(arc)),
                decreases ops_by_loc@.len() - i,
            {
                proof {
                    reveal(Seq::filter);
                    assert(ops_by_loc@.take(i + 1).drop_last() =~= ops_by_loc@.take(i as int));
                    assert(ops_by_loc@.take(i + 1).last() == ops_by_loc@[i as int]);
                }
                let o = ops_by_loc[i];
                if arc.contains(o.loc()) {
                    held.push(o);
                }
                i = i + 1;
            }
            proof {
                assert(ops_by_loc@.take(ops_by_loc@.len() as int) =~= ops_by_loc@);
            }

            let mut any_refs: Vec<AnyRef> = Vec::new();
            let mut m: usize = 0;
            while m < held.len()
                invariant
                    m <= held@.len(),
                    any_refs@ == spec_any_refs(held@.take(m as int)),
                decreases held@.len() - m,
            {
                proof {
                    assert(held@.take(m + 1).drop_last() =~= held@.take(m as int));
                    assert(held@.take(m + 1).last() == held@[m as int]);
                }
                let o = held[m];
                match o.op_type {
                    OpType::StoreEntry => {
                        any_refs.push(AnyRef {
                            key: AnyDhtHash::Entry(o.basis),
                            chain_idx: o.chain_idx,
                            record_idx: o.record_idx,
                        });
                    },
                    OpType::StoreElement => {
                        any_refs.push(AnyRef {
                            key: AnyDhtHash::Header(o.basis),
                            chain_idx: o.chain_idx,
                            record_idx: o.record_idx,
                        });
                    },
                    _ => {},
                }
                m = m + 1;
            }
            proof {
                assert(held@.take(held@.len() as int) =~= held@);
            }

            all_held_agents.push(held_peers);
            agent_held_ops.push(held);
            agent_any_idx.push(any_refs);
            k = k + 1;
        }
        GeneratedData { data, agent_info, ops_by_loc, all_held_agents, agent_held_ops, agent_any_idx }
    }

    /// In a correct snapshot, every indexed op references the dataset
    /// correctly, so lookups through it stay in range.
    pub proof fn lemma_snapshot_ops_valid(self)
        requires
            self.wf(),
        ensures
            ops_valid(self.ops_by_loc@, self.data@),
            forall|k: int|
                0 <= k < self.agent_info@.len() ==> ops_valid(
                    (#[trigger] self.agent_held_ops@[k])@,
                    self.data@,
                ),
    {
        lemma_vec_len_bound(&self.data);
        lemma_all_ops_valid(self.data@);
        crate::ops::lemma_sort_ops_ensures(spec_all_ops(self.data@));
        let sorted = spec_sort_ops(spec_all_ops(self.data@));
        assert forall|i: int| 0 <= i < sorted.len() implies op_valid(
            #[trigger] sorted[i],
            self.data@,
        ) by {
            assert(sorted.contains(sorted[i]));
            let o = sorted[i];
            let j = choose|j: int|
                0 <= j < spec_all_ops(self.data@).len() && spec_all_ops(self.data@)[j] == o;
            assert(op_valid(spec_all_ops(self.data@)[j], self.data@));
        }
        assert forall|k: int| 0 <= k < self.agent_info@.len() implies ops_valid(
            (#[trigger] self.agent_held_ops@[k])@,
            self.data@,
        ) by {
            let held = self.agent_held_ops@[k]@;
            let pred = held_pred(self.agent_info@[k].storage_arc);
            lemma_filter_subset(sorted, pred);
            assert forall|i: int| 0 <= i < held.len() implies op_valid(
                #[trigger] held[i],
                self.data@,
            ) by {
                assert(held.contains(held[i]));
                assert(sorted.contains(held[i]));
                let j = choose|j: int| 0 <= j < sorted.len() && sorted[j] == held[i];
                assert(op_valid(sorted[j], self.data@));
            }
        }
    }
}

} // verus!
