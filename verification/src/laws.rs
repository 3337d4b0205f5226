//! The crate-level laws: properties of whole runs, stated over the spec
//! functions the builders' and responders' contracts use.

use vstd::prelude::*;

use crate::chain::Chain;
use crate::data::Record;
use crate::index::GeneratedData;
use crate::ops::{spec_derive_ops, DerivedOp, OpType};
use crate::query::spec_window_hashes;
use crate::ring::ArcInterval;

verus! {

/// Every generated chain is a monotonic hash chain opening with the fixed
/// genesis triple: sequence numbers count up from 0, timestamps strictly
/// increase, each record's previous-hash pointer is its predecessor's
/// content address, and the third genesis record carries the author's own
/// key as its payload. The chain methods preserve this invariant, so it
/// holds after any sequence of appends.
pub proof fn lemma_chain_monotonic(c: Chain)
    requires
        c.wf(),
    ensures
        c.records@.len() >= 3,
        c.records@[0].header.kind is Dna,
        c.records@[1].header.kind is AgentValidationPkg,
        c.records@[2].header.kind is Create,
        c.records@[2].entry is Some,
        c.records@[2].entry->0@ == crate::chain::spec_key_bytes(c.author),
        forall|i: int| 0 <= i < c.records@.len() ==> (#[trigger] c.records@[i]).header.seq == i,
        forall|i: int|
            1 <= i < c.records@.len() ==> (#[trigger] c.records@[i]).header.timestamp > c.records@[
                i - 1
            ].header.timestamp,
        forall|i: int|
            1 <= i < c.records@.len() ==> (#[trigger] c.records@[i]).header.prev_hash == c.records@[
                i - 1
            ].header_hash,
{
}

/// Rebuilding the index snapshot on the same chains and announcements
/// yields the same indices, entry for entry: every index is a function of
/// the inputs alone.
pub proof fn lemma_build_idempotent(a: GeneratedData, b: GeneratedData)
    requires
        a.wf(),
        b.wf(),
        a.data@ == b.data@,
        a.agent_info@ == b.agent_info@,
    ensures
        a.ops_by_loc@ == b.ops_by_loc@,
        a.all_held_agents@.len() == b.all_held_agents@.len(),
        forall|k: int|
            0 <= k < a.all_held_agents@.len() ==> (#[trigger] a.all_held_agents@[k])@ == (
            b.all_held_agents@[k])@,
        a.agent_held_ops@.len() == b.agent_held_ops@.len(),
        forall|k: int|
            0 <= k < a.agent_held_ops@.len() ==> (#[trigger] a.agent_held_ops@[k])@ == (
            b.agent_held_ops@[k])@,
        a.agent_any_idx@.len() == b.agent_any_idx@.len(),
        forall|k: int|
            0 <= k < a.agent_any_idx@.len() ==> (#[trigger] a.agent_any_idx@[k])@ == (
            b.agent_any_idx@[k])@,
{
}

/// A store-content op is derived only from a record whose content is
/// public.
pub proof fn lemma_derive_respects_visibility(r: Record, ci: int, ri: int, o: DerivedOp)
    requires
        spec_derive_ops(r, ci, ri).contains(o),
        o.op_type == OpType::StoreEntry,
    ensures
        r.spec_is_public(),
{
    let s = spec_derive_ops(r, ci, ri);
    let m = choose|m: int| 0 <= m < s.len() && s[m] == o;
    assert(s[0].op_type == OpType::StoreElement);
    assert(s[1].op_type == OpType::RegisterAgentActivity);
}

/// No store-content op of a private record stands in any agent's content
/// index: every store-content op an agent holds references a public
/// record.
pub proof fn lemma_private_content_absent(d: GeneratedData, k: int, m: int)
    requires
        d.wf(),
        0 <= k < d.agent_info@.len(),
        0 <= m < d.agent_held_ops@[k]@.len(),
        d.agent_held_ops@[k]@[m].op_type == OpType::StoreEntry,
    ensures
        ({
            let o = d.agent_held_ops@[k]@[m];
            &&& o.chain_idx < d.data@.len()
            &&& o.record_idx < d.data@[o.chain_idx as int].records@.len()
            &&& d.data@[o.chain_idx as int].records@[o.record_idx as int].spec_is_public()
        }),
{
    d.lemma_snapshot_ops_valid();
    let o = d.agent_held_ops@[k]@[m];
    assert(crate::index::op_valid(o, d.data@));
    reveal(crate::index::op_valid);
    let rec = d.data@[o.chain_idx as int].records@[o.record_idx as int];
    lemma_derive_respects_visibility(rec, o.chain_idx as int, o.record_idx as int, o);
}

/// A range query answers only from inside the queried arc set and time
/// window: every returned hash belongs to a held op whose location lies in
/// one of the queried intervals, wraparound included, and whose timestamp
/// lies in the window.
pub proof fn lemma_window_hashes_in_arcs(
    held: Seq<DerivedOp>,
    ivs: Seq<ArcInterval>,
    ws: u64,
    we: u64,
    m: int,
)
    requires
        0 <= m < spec_window_hashes(held, ivs, ws, we).len(),
    ensures
        exists|t: int, j: int|
            #![auto]
            0 <= t < ivs.len() && 0 <= j < held.len() && held[j].op_hash == spec_window_hashes(
                held,
                ivs,
                ws,
                we,
            )[m] && ivs[t].spec_contains(held[j].spec_loc()) && ws <= held[j].timestamp < we,
    decreases ivs.len(),
{
    let hs = spec_window_hashes(held, ivs, ws, we);
    let pre = spec_window_hashes(held, ivs.drop_last(), ws, we);
    let pred = crate::query::window_pred(ivs.last(), ws, we);
    if m < pre.len() {
        lemma_window_hashes_in_arcs(held, ivs.drop_last(), ws, we, m);
        let (t, j): (int, int) = choose|t: int, j: int|
            #![auto]
            0 <= t < ivs.drop_last().len() && 0 <= j < held.len() && held[j].op_hash
                == spec_window_hashes(held, ivs.drop_last(), ws, we)[m] && ivs.drop_last()[
                t
            ].spec_contains(held[j].spec_loc()) && ws <= held[j].timestamp < we;
        assert(ivs[t] == ivs.drop_last()[t]);
        assert(hs[m] == pre[m]);
    } else {
        let f = held.filter(pred);
        let i = m - pre.len();
        assert(hs[m] == f.map_values(|o: DerivedOp| o.op_hash)[i]);
        assert(f.map_values(|o: DerivedOp| o.op_hash)[i] == f[i].op_hash);
        held.lemma_filter_pred(pred, i);

        crate::index::lemma_filter_subset(held, pred);
        assert(f.contains(f[i]));
        let j = choose|j: int| 0 <= j < held.len() && held[j] == f[i];
        let t = ivs.len() - 1;
        assert(ivs[t].spec_contains(held[j].spec_loc()) && ws <= held[j].timestamp < we);
    }
}


/// Filtering keeps a sequence's (location, timestamp) order.
proof fn lemma_filter_preserves_op_order(s: Seq<DerivedOp>, pred: spec_fn(DerivedOp) -> bool)
    requires
        crate::ops::ops_sorted(s),
    ensures
        crate::ops::ops_sorted(s.filter(pred)),
    decreases s.len(),
{
    reveal(Seq::filter);
    if s.len() > 0 {
        let d = s.drop_last();
        assert(crate::ops::ops_sorted(d)) by {
            assert forall|i: int, j: int| 0 <= i < j < d.len() implies crate::ops::op_le(
                d[i],
                d[j],
            ) by {
                assert(crate::ops::op_le(s[i], s[j]));
            }
        }
        lemma_filter_preserves_op_order(d, pred);
        if pred(s.last()) {
            let f = s.filter(pred);
            let df = d.filter(pred);
            crate::index::lemma_filter_subset(d, pred);
            assert forall|i: int, j: int| 0 <= i < j < f.len() implies crate::ops::op_le(
                f[i],
                f[j],
            ) by {
                if j == f.len() - 1 {
                    assert(f[j] == s.last());
                    assert(df.contains(df[i]));
                    assert(d.contains(df[i]));
                    let m = choose|m: int| 0 <= m < d.len() && d[m] == df[i];
                    assert(crate::ops::op_le(s[m], s[s.len() - 1]) || m == s.len() - 1);
                }
            }
        }
    }
}

/// Each agent's held-op index lists its ops in ring-location order, with
/// equal locations ordered by time.
pub proof fn lemma_held_ops_ordered(d: GeneratedData, k: int)
    requires
        d.wf(),
        0 <= k < d.agent_info@.len(),
    ensures
        crate::ops::ops_sorted(d.agent_held_ops@[k]@),
{
    crate::ops::lemma_sort_ops_ensures(crate::ops::spec_all_ops(d.data@));
    lemma_filter_preserves_op_order(
        crate::ops::spec_sort_ops(crate::ops::spec_all_ops(d.data@)),
        crate::index::held_pred(d.agent_info@[k].storage_arc),
    );
}

/// The peer-visibility index holds exactly the announcements whose arc
/// center the agent's own storage arc contains, in announcement order.
pub proof fn lemma_held_peers_characterized(d: GeneratedData, k: int)
    requires
        d.wf(),
        0 <= k < d.agent_info@.len(),
    ensures
        ({
            let held = d.all_held_agents@[k]@;
            let infos = d.agent_info@;
            let arc = infos[k].storage_arc;
            &&& forall|m: int|
                0 <= m < held.len() ==> (#[trigger] held[m]) < infos.len()
                    && arc.spec_contains(infos[held[m] as int].storage_arc.center)
            &&& forall|j: int|
                0 <= j < infos.len() && arc.spec_contains(
                    (#[trigger] infos[j]).storage_arc.center,
                ) ==> held.contains(j as usize)
        }),
{
    let infos = d.agent_info@;
    let arc = infos[k].storage_arc;
    assert(infos.len() <= usize::MAX) by {
        vstd::std_specs::vec::axiom_spec_len(&d.agent_info);
    }
    lemma_held_peer_idxs_prefix(infos, arc, infos.len() as int);
    assert(infos.take(infos.len() as int) =~= infos);
}

/// Characterization of the held-peer prefix construction: the first `n`
/// announcements contribute exactly the positions whose arc center the
/// agent's arc contains.
proof fn lemma_held_peer_idxs_prefix(
    infos: Seq<crate::data::PeerInfo>,
    arc: crate::ring::StorageArc,
    n: int,
)
    requires
        0 <= n <= infos.len(),
        infos.len() <= usize::MAX,
    ensures
        ({
            let held = crate::index::spec_held_peer_idxs(infos.take(n), arc);
            &&& forall|m: int|
                0 <= m < held.len() ==> (#[trigger] held[m]) < n && arc.spec_contains(
                    infos[held[m] as int].storage_arc.center,
                )
            &&& forall|j: int|
                0 <= j < n && arc.spec_contains((#[trigger] infos[j]).storage_arc.center)
                    ==> held.contains(j as usize)
        }),
    decreases n,
{
    if n > 0 {
        lemma_held_peer_idxs_prefix(infos, arc, n - 1);
        assert(infos.take(n).drop_last() =~= infos.take(n - 1));
        assert(infos.take(n).last() == infos[n - 1]);
        let pre = crate::index::spec_held_peer_idxs(infos.take(n - 1), arc);
        let held = crate::index::spec_held_peer_idxs(infos.take(n), arc);
        assert forall|j: int|
            0 <= j < n && arc.spec_contains((#[trigger] infos[j]).storage_arc.center) implies
        held.contains(j as usize) by {
            if j < n - 1 {
                assert(pre.contains(j as usize));
                let m = choose|m: int| 0 <= m < pre.len() && pre[m] == j as usize;
                assert(held[m] == j as usize);
            } else {
                assert(held[held.len() - 1] == j as usize);
            }
        }
        assert forall|m: int| 0 <= m < held.len() implies (#[trigger] held[m]) < n
            && arc.spec_contains(infos[held[m] as int].storage_arc.center) by {
            if m < pre.len() {
                assert(held[m] == pre[m]);
            }
        }
    }
}


/// Filtering with a predicate every element meets keeps the sequence.
proof fn lemma_filter_keeps_all<A>(s: Seq<A>, pred: spec_fn(A) -> bool)
    requires
        forall|i: int| 0 <= i < s.len() ==> pred(#[trigger] s[i]),
    ensures
        s.filter(pred) == s,
    decreases s.len(),
{
    reveal(Seq::filter);
    if s.len() > 0 {
        let d = s.drop_last();
        assert forall|i: int| 0 <= i < d.len() implies pred(#[trigger] d[i]) by {
            assert(pred(s[i]));
        }
        lemma_filter_keeps_all(d, pred);
        assert(pred(s.last()));
        assert(s.filter(pred) =~= s);
    }
}

/// A full-ring arc holds everything: the held-op index of an agent whose
/// arc covers the whole ring is the entire ring-ordered op list, so it has
/// exactly one entry per counted op of every input record.
pub proof fn lemma_full_arc_holds_everything(d: GeneratedData, k: int)
    requires
        d.wf(),
        0 <= k < d.agent_info@.len(),
        d.agent_info@[k].storage_arc.half_length >= 0x8000_0000,
    ensures
        d.agent_held_ops@[k]@ == d.ops_by_loc@,
        d.agent_held_ops@[k]@.len() == crate::ops::spec_total_op_count(d.data@),
{
    let sorted = crate::ops::spec_sort_ops(crate::ops::spec_all_ops(d.data@));
    let arc = d.agent_info@[k].storage_arc;
    let pred = crate::index::held_pred(arc);
    assert forall|i: int| 0 <= i < sorted.len() implies pred(#[trigger] sorted[i]) by {
        crate::ring::lemma_ring_dist_bound(arc.center, sorted[i].spec_loc());
    }
    lemma_filter_keeps_all(sorted, pred);
    crate::ops::lemma_sort_ops_ensures(crate::ops::spec_all_ops(d.data@));
    crate::ops::lemma_total_op_count(d.data@);
}

} // verus!
