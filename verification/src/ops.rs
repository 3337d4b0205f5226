//! Derivation of protocol operations from records, and their ring ordering.
//!
//! Every record yields a deterministic set of ops, mirroring the real
//! storage layer's rules: a store-record op and an agent-activity op for
//! every header, plus type-specific ops addressed at the entry, link base or
//! referenced addresses. A store-content op is suppressed when the record's
//! content visibility is private, so no such op exists anywhere downstream.
//!
//! An op's ring location is the low-order bits of its basis address. The
//! index builder orders all derived ops by (location, timestamp) with a
//! stable insertion sort, specified exactly by `spec_sort_ops`.

use vstd::prelude::*;

use crate::chain::Chain;
use crate::data::{HeaderKind, Record, Visibility};
use crate::hash::{mix, spec_loc_of, HASH_OFFSET, HASH_PRIME};

verus! {

/// The kinds of ops the storage layer derives from a record.
#[derive(Clone, Copy, Debug, PartialEq, Eq, Hash, Structural)]
pub enum OpType {
    StoreElement,
    StoreEntry,
    RegisterAgentActivity,
    RegisterAddLink,
    RegisterRemoveLink,
    RegisterUpdatedContent,
    RegisterUpdatedElement,
    RegisterDeletedBy,
    RegisterDeletedEntryHeader,
}

/// Serialization word for an op type, used in the op's address.
pub open spec fn type_word(t: OpType) -> u64 {
    match t {
        OpType::StoreElement => 1,
        OpType::StoreEntry => 2,
        OpType::RegisterAgentActivity => 3,
        OpType::RegisterAddLink => 4,
        OpType::RegisterRemoveLink => 5,
        OpType::RegisterUpdatedContent => 6,
        OpType::RegisterUpdatedElement => 7,
        OpType::RegisterDeletedBy => 8,
        OpType::RegisterDeletedEntryHeader => 9,
    }
}

/// The address of an op: a digest of its type and its header's address, so
/// that each (type, header) pair has one op address.
pub open spec fn spec_op_hash(t: OpType, header_hash: u64) -> u64 {
    mix(mix(HASH_OFFSET, type_word(t)), header_hash)
}

/// Compute an op's address.
pub fn op_hash(t: OpType, header_hash: u64) -> (r: u64)
    ensures
        r == spec_op_hash(t, header_hash),
{
    let w = match t {
        OpType::StoreElement => 1u64,
        OpType::StoreEntry => 2,
        OpType::RegisterAgentActivity => 3,
        OpType::RegisterAddLink => 4,
        OpType::RegisterRemoveLink => 5,
        OpType::RegisterUpdatedContent => 6,
        OpType::RegisterUpdatedElement => 7,
        OpType::RegisterDeletedBy => 8,
        OpType::RegisterDeletedEntryHeader => 9,
    };
    (((HASH_OFFSET ^ w).wrapping_mul(HASH_PRIME)) ^ header_hash).wrapping_mul(HASH_PRIME)
}

/// One derived op, referencing its record by position in the dataset rather
/// than by copy: `chain_idx` indexes the per-agent chains, `record_idx` the
/// records of that chain.
#[derive(Clone, Copy, Debug, PartialEq, Eq, Structural)]
pub struct DerivedOp {
    pub op_type: OpType,
    /// The op's basis address; its low bits are the op's ring location.
    pub basis: u64,
    /// The op's own address.
    pub op_hash: u64,
    /// The authoring record's timestamp, microseconds since the epoch.
    pub timestamp: u64,
    pub chain_idx: usize,
    pub record_idx: usize,
}

impl DerivedOp {
    /// The op's ring location: the low-order bits of its basis address.
    pub open spec fn spec_loc(self) -> u32 {
        spec_loc_of(self.basis)
    }

    /// Compute the op's ring location.
    pub fn loc(&self) -> (r: u32)
        ensures
            r == self.spec_loc(),
    {
        crate::hash::loc_of(self.basis)
    }
}

/// Build one op of a record.
pub open spec fn op_of(r: Record, t: OpType, basis: u64, ci: int, ri: int) -> DerivedOp {
    DerivedOp {
        op_type: t,
        basis,
        op_hash: spec_op_hash(t, r.header_hash),
        timestamp: r.header.timestamp,
        chain_idx: ci as usize,
        record_idx: ri as usize,
    }
}

/// The ops a record yields: a store-record op at the header's address and an
/// agent-activity op at the author's key, plus the header-type-specific ops.
/// The store-content op exists only when the content visibility is public.
pub open spec fn spec_derive_ops(r: Record, ci: int, ri: int) -> Seq<DerivedOp> {
    seq![
        op_of(r, OpType::StoreElement, r.header_hash, ci, ri),
        op_of(r, OpType::RegisterAgentActivity, r.header.author, ci, ri),
    ] + match r.header.kind {
        HeaderKind::Create { visibility, entry_hash } => {
            if visibility == Visibility::Public {
                seq![op_of(r, OpType::StoreEntry, entry_hash, ci, ri)]
            } else {
                seq![]
            }
        },
        HeaderKind::Update {
            original_entry_address,
            original_header_address,
            visibility,
            entry_hash,
        } => {
            (if visibility == Visibility::Public {
                seq![op_of(r, OpType::StoreEntry, entry_hash, ci, ri)]
            } else {
                seq![]
            }) + seq![
                op_of(r, OpType::RegisterUpdatedContent, original_entry_address, ci, ri),
                op_of(r, OpType::RegisterUpdatedElement, original_header_address, ci, ri),
            ]
        },
        HeaderKind::Delete { deletes_address, deletes_entry_address } => seq![
            op_of(r, OpType::RegisterDeletedBy, deletes_address, ci, ri),
            op_of(r, OpType::RegisterDeletedEntryHeader, deletes_entry_address, ci, ri),
        ],
        HeaderKind::CreateLink { base_address, .. } => seq![
            op_of(r, OpType::RegisterAddLink, base_address, ci, ri),
        ],
        HeaderKind::DeleteLink { base_address, .. } => seq![
            op_of(r, OpType::RegisterRemoveLink, base_address, ci, ri),
        ],
        _ => seq![],
    }
}

/// Derive the ops of one record.
pub fn derive_ops(r: &Record, ci: usize, ri: usize) -> (v: Vec<DerivedOp>)
    ensures
        v@ == spec_derive_ops(*r, ci as int, ri as int),
{
    let mut v: Vec<DerivedOp> = Vec::new();
    v.push(DerivedOp {
        op_type: OpType::StoreElement,
        basis: r.header_hash,
        op_hash: op_hash(OpType::StoreElement, r.header_hash),
        timestamp: r.header.timestamp,
        chain_idx: ci,
        record_idx: ri,
    });
    v.push(DerivedOp {
        op_type: OpType::RegisterAgentActivity,
        basis: r.header.author,
        op_hash: op_hash(OpType::RegisterAgentActivity, r.header_hash),
        timestamp: r.header.timestamp,
        chain_idx: ci,
        record_idx: ri,
    });
    match &r.header.kind {
        HeaderKind::Create { visibility, entry_hash } => {
            if *visibility == Visibility::Public {
                v.push(DerivedOp {
                    op_type: OpType::StoreEntry,
                    basis: *entry_hash,
                    op_hash: op_hash(OpType::StoreEntry, r.header_hash),
                    timestamp: r.header.timestamp,
                    chain_idx: ci,
                    record_idx: ri,
                });
            }
        },
        HeaderKind::Update {
            original_entry_address,
            original_header_address,
            visibility,
            entry_hash,
        } => {
            if *visibility == Visibility::Public {
                v.push(DerivedOp {
                    op_type: OpType::StoreEntry,
                    basis: *entry_hash,
                    op_hash: op_hash(OpType::StoreEntry, r.header_hash),
                    timestamp: r.header.timestamp,
                    chain_idx: ci,
                    record_idx: ri,
                });
            }
            v.push(DerivedOp {
                op_type: OpType::RegisterUpdatedContent,
                basis: *original_entry_address,
                op_hash: op_hash(OpType::RegisterUpdatedContent, r.header_hash),
                timestamp: r.header.timestamp,
                chain_idx: ci,
                record_idx: ri,
            });
            v.push(DerivedOp {
                op_type: OpType::RegisterUpdatedElement,
                basis: *original_header_address,
                op_hash: op_hash(OpType::RegisterUpdatedElement, r.header_hash),
                timestamp: r.header.timestamp,
                chain_idx: ci,
                record_idx: ri,
            });
        },
        HeaderKind::Delete { deletes_address, deletes_entry_address } => {
            v.push(DerivedOp {
                op_type: OpType::RegisterDeletedBy,
                basis: *deletes_address,
                op_hash: op_hash(OpType::RegisterDeletedBy, r.header_hash),
                timestamp: r.header.timestamp,
                chain_idx: ci,
                record_idx: ri,
            });
            v.push(DerivedOp {
                op_type: OpType::RegisterDeletedEntryHeader,
                basis: *deletes_entry_address,
                op_hash: op_hash(OpType::RegisterDeletedEntryHeader, r.header_hash),
                timestamp: r.header.timestamp,
                chain_idx: ci,
                record_idx: ri,
            });
        },
        HeaderKind::CreateLink { base_address, .. } => {
            v.push(DerivedOp {
                op_type: OpType::RegisterAddLink,
                basis: *base_address,
                op_hash: op_hash(OpType::RegisterAddLink, r.header_hash),
                timestamp: r.header.timestamp,
                chain_idx: ci,
                record_idx: ri,
            });
        },
        HeaderKind::DeleteLink { base_address, .. } => {
            v.push(DerivedOp {
                op_type: OpType::RegisterRemoveLink,
                basis: *base_address,
                op_hash: op_hash(OpType::RegisterRemoveLink, r.header_hash),
                timestamp: r.header.timestamp,
                chain_idx: ci,
                record_idx: ri,
            });
        },
        _ => {},
    }
    proof {
        assert(v@ =~= spec_derive_ops(*r, ci as int, ri as int));
    }
    v
}

/// The ops of one chain's records, in chain order.
pub open spec fn spec_chain_ops(records: Seq<Record>, ci: int) -> Seq<DerivedOp>
    decreases records.len(),
{
    if records.len() == 0 {
        seq![]
    } else {
        spec_chain_ops(records.drop_last(), ci) + spec_derive_ops(
            records.last(),
            ci,
            records.len() - 1,
        )
    }
}

/// The ops of the whole dataset, chain by chain.
pub open spec fn spec_all_ops(chains: Seq<Chain>) -> Seq<DerivedOp>
    decreases chains.len(),
{
    if chains.len() == 0 {
        seq![]
    } else {
        spec_all_ops(chains.drop_last()) + spec_chain_ops(
            chains.last().records@,
            chains.len() - 1,
        )
    }
}

/// Derive every op of the dataset.
pub fn collect_all_ops(chains: &Vec<Chain>) -> (r: Vec<DerivedOp>)
    ensures
        r@ == spec_all_ops(chains@),
{
    let mut out: Vec<DerivedOp> = Vec::new();
    let mut ci: usize = 0;
    while ci < chains.len()
        invariant
            ci <= chains@.len(),
            out@ == spec_all_ops(chains@.take(ci as int)),
        decreases chains@.len() - ci,
    {
        let records_len = chains[ci].records.len();
        let mut ri: usize = 0;
        while ri < records_len
            invariant
                ci < chains@.len(),
                ri <= records_len,
                records_len == chains@[ci as int].records@.len(),
                out@ == spec_all_ops(chains@.take(ci as int)) + spec_chain_ops(
                    chains@[ci as int].records@.take(ri as int),
                    ci as int,
                ),
            decreases records_len - ri,
        {
            let ops = derive_ops(&chains[ci].records[ri], ci, ri);
            let mut k: usize = 0;
            while k < ops.len()
                invariant
                    k <= ops@.len(),
                    ci < chains@.len(),
                    ri < chains@[ci as int].records@.len(),
                    ops@ == spec_derive_ops(chains@[ci as int].records@[ri as int], ci as int, ri as int),
                    out@ == spec_all_ops(chains@.take(ci as int)) + spec_chain_ops(
                        chains@[ci as int].records@.take(ri as int),
                        ci as int,
                    ) + ops@.take(k as int),
                decreases ops@.len() - k,
            {
                proof {
                    assert(ops@.take(k + 1) =~= ops@.take(k as int).push(ops@[k as int]));
                }
                out.push(ops[k]);
                k = k + 1;
            }
            proof {
                let recs = chains@[ci as int].records@;
                assert(recs.take(ri + 1).drop_last() =~= recs.take(ri as int));
                assert(recs.take(ri + 1).last() == recs[ri as int]);
                assert(ops@.take(ops@.len() as int) =~= ops@);
            }
            ri = ri + 1;
        }
        proof {
            assert(chains@.take(ci + 1).drop_last() =~= chains@.take(ci as int));
            assert(chains@.take(ci + 1).last() == chains@[ci as int]);
            assert(chains@[ci as int].records@.take(records_len as int) =~= chains@[
                ci as int
            ].records@);
        }
        ci = ci + 1;
    }
    proof {
        assert(chains@.take(chains@.len() as int) =~= chains@);
    }
    out
}

/// The (location, timestamp) order on ops.
pub open spec fn op_le(a: DerivedOp, b: DerivedOp) -> bool {
    a.spec_loc() < b.spec_loc() || (a.spec_loc() == b.spec_loc() && a.timestamp <= b.timestamp)
}

/// A sequence of ops in (location, timestamp) order.
pub open spec fn ops_sorted(s: Seq<DerivedOp>) -> bool {
    forall|i: int, j: int| 0 <= i < j < s.len() ==> op_le(#[trigger] s[i], #[trigger] s[j])
}

/// Compare two ops in (location, timestamp) order.
pub fn op_le_cmp(a: &DerivedOp, b: &DerivedOp) -> (r: bool)
    ensures
        r == op_le(*a, *b),
{
    let la = a.loc();
    let lb = b.loc();
    la < lb || (la == lb && a.timestamp <= b.timestamp)
}

/// Stable insertion of an op into an ordered sequence: the op lands after
/// every element that orders at or before it.
pub open spec fn spec_insert_op(s: Seq<DerivedOp>, o: DerivedOp) -> Seq<DerivedOp>
    decreases s.len(),
{
    if s.len() == 0 {
        seq![o]
    } else if op_le(s.last(), o) {
        s.push(o)
    } else {
        spec_insert_op(s.drop_last(), o).push(s.last())
    }
}

/// Stable insertion sort of ops by (location, timestamp).
pub open spec fn spec_sort_ops(s: Seq<DerivedOp>) -> Seq<DerivedOp>
    decreases s.len(),
{
    if s.len() == 0 {
        seq![]
    } else {
        spec_insert_op(spec_sort_ops(s.drop_last()), s.last())
    }
}

/// Where the stable insertion lands: at the first position from the right
/// whose predecessor orders at or before the op.
proof fn lemma_insert_at(s: Seq<DerivedOp>, o: DerivedOp, j: int)
    requires
        0 <= j <= s.len(),
        forall|m: int| j <= m < s.len() ==> !op_le(#[trigger] s[m], o),
        j > 0 ==> op_le(s[j - 1], o),
    ensures
        spec_insert_op(s, o) == s.take(j) + seq![o] + s.skip(j),
    decreases s.len(),
{
    if s.len() == j {
        if s.len() == 0 {
            assert(spec_insert_op(s, o) =~= s.take(j) + seq![o] + s.skip(j));
        } else {
            assert(op_le(s.last(), o));
            assert(spec_insert_op(s, o) =~= s.take(j) + seq![o] + s.skip(j));
        }
    } else {
        assert(!op_le(s.last(), o));
        let d = s.drop_last();
        lemma_insert_at(d, o, j);
        assert(spec_insert_op(s, o) =~= s.take(j) + seq![o] + s.skip(j));
    }
}

/// Insertion keeps the order and adds exactly the new op.
proof fn lemma_insert_op_ensures(s: Seq<DerivedOp>, o: DerivedOp)
    requires
        ops_sorted(s),
    ensures
        ops_sorted(spec_insert_op(s, o)),
        spec_insert_op(s, o).len() == s.len() + 1,
        forall|x: DerivedOp|
            #[trigger] spec_insert_op(s, o).contains(x) <==> (s.contains(x) || x == o),
    decreases s.len(),
{
    let r = spec_insert_op(s, o);
    if s.len() == 0 {
        assert forall|x: DerivedOp| r.contains(x) implies (s.contains(x) || x == o) by {
            assert(r[0] == o);
        }
        assert(r.contains(o));
    } else if op_le(s.last(), o) {
        assert forall|i: int, j: int| 0 <= i < j < r.len() implies op_le(r[i], r[j]) by {
            if j < s.len() {
            } else {
                if i < s.len() {
                    assert(op_le(s[i], s.last()) || i == s.len() - 1);
                }
            }
        }
        assert forall|x: DerivedOp| r.contains(x) implies (s.contains(x) || x == o) by {
            let i = choose|i: int| 0 <= i < r.len() && r[i] == x;
            if i < s.len() {
                assert(s[i] == x);
            }
        }
        assert forall|x: DerivedOp| s.contains(x) || x == o implies r.contains(x) by {
            if s.contains(x) {
                let i = choose|i: int| 0 <= i < s.len() && s[i] == x;
                assert(r[i] == x);
            } else {
                assert(r[s.len() as int] == o);
            }
        }
    } else {
        let d = s.drop_last();
        assert(ops_sorted(d)) by {
            assert forall|i: int, j: int| 0 <= i < j < d.len() implies op_le(d[i], d[j]) by {
                assert(op_le(s[i], s[j]));
            }
        }
        lemma_insert_op_ensures(d, o);
        let q = spec_insert_op(d, o);
        assert(r == q.push(s.last()));
        assert forall|i: int, j: int| 0 <= i < j < r.len() implies op_le(r[i], r[j]) by {
            if j < q.len() {
            } else {
                // r[j] is s.last(); every element of q is either from d,
                // ordered before it, or o itself, which orders before it
                // because op_le is total.
                assert(q.contains(q[i]));
                if q[i] == o {
                    assert(!op_le(s.last(), o));
                    assert(op_le(o, s.last()));
                } else {
                    assert(d.contains(q[i]));
                    let m = choose|m: int| 0 <= m < d.len() && d[m] == q[i];
                    assert(op_le(s[m], s[s.len() - 1]) || m == s.len() - 1);
                }
            }
        }
        assert forall|x: DerivedOp| r.contains(x) implies (s.contains(x) || x == o) by {
            let i = choose|i: int| 0 <= i < r.len() && r[i] == x;
            if i < q.len() {
                assert(q[i] == x);
                assert(q.contains(x));
                if d.contains(x) {
                    let m = choose|m: int| 0 <= m < d.len() && d[m] == x;
                    assert(s[m] == x);
                }
            } else {
                assert(x == s.last());
                assert(s[s.len() - 1] == x);
            }
        }
        assert forall|x: DerivedOp| s.contains(x) || x == o implies r.contains(x) by {
            if x == o || d.contains(x) {
                assert(spec_insert_op(d, o).contains(x));
                let m = choose|m: int| 0 <= m < q.len() && q[m] == x;
                assert(r[m] == x);
            } else {
                let m = choose|m: int| 0 <= m < s.len() && s[m] == x;
                if m < d.len() {
                    assert(d[m] == x);
                } else {
                    assert(r[r.len() - 1] == s.last());
                }
            }
        }
    }
}

/// The sort orders the ops and keeps exactly the ops that went in.
pub proof fn lemma_sort_ops_ensures(s: Seq<DerivedOp>)
    ensures
        ops_sorted(spec_sort_ops(s)),
        spec_sort_ops(s).len() == s.len(),
        forall|x: DerivedOp| #[trigger] spec_sort_ops(s).contains(x) <==> s.contains(x),
    decreases s.len(),
{
    if s.len() == 0 {
    } else {
        let d = s.drop_last();
        lemma_sort_ops_ensures(d);
        lemma_insert_op_ensures(spec_sort_ops(d), s.last());
        assert forall|x: DerivedOp| spec_sort_ops(s).contains(x) implies s.contains(x) by {
            if d.contains(x) {
                let m = choose|m: int| 0 <= m < d.len() && d[m] == x;
                assert(s[m] == x);
            } else {
                assert(s[s.len() - 1] == x);
            }
        }
        assert forall|x: DerivedOp| s.contains(x) implies spec_sort_ops(s).contains(x) by {
            let m = choose|m: int| 0 <= m < s.len() && s[m] == x;
            if m < d.len() {
                assert(d[m] == x);
                assert(d.contains(x));
                assert(spec_sort_ops(d).contains(x));
                assert(spec_insert_op(spec_sort_ops(d), s.last()).contains(x));
            } else {
                assert(x == s.last());
                assert(spec_insert_op(spec_sort_ops(d), s.last()).contains(x));
            }
        }
    }
}

/// Insert an op into an ordered vector, stably.
pub fn insert_op(out: &mut Vec<DerivedOp>, o: DerivedOp)
    ensures
        final(out)@ == spec_insert_op(old(out)@, o),
{
    let mut j: usize = out.len();
    while j > 0 && !op_le_cmp(&out[j - 1], &o)
        invariant
            j <= out@.len(),
            out@ == old(out)@,
            forall|m: int| j <= m < out@.len() ==> !op_le(#[trigger] out@[m], o),
        decreases j,
    {
        j = j - 1;
    }
    proof {
        lemma_insert_at(out@, o, j as int);
    }
    out.insert(j, o);
    proof {
        assert(final(out)@ =~= old(out)@.take(j as int) + seq![o] + old(out)@.skip(j as int));
    }
}

/// Sort all derived ops by (location, timestamp), stably.
pub fn sort_ops(ops: &Vec<DerivedOp>) -> (r: Vec<DerivedOp>)
    ensures
        r@ == spec_sort_ops(ops@),
{
    let mut out: Vec<DerivedOp> = Vec::new();
    let mut i: usize = 0;
    while i < ops.len()
        invariant
            i <= ops@.len(),
            out@ == spec_sort_ops(ops@.take(i as int)),
        decreases ops@.len() - i,
    {
        insert_op(&mut out, ops[i]);
        proof {
            assert(ops@.take(i + 1).drop_last() =~= ops@.take(i as int));
            assert(ops@.take(i + 1).last() == ops@[i as int]);
        }
        i = i + 1;
    }
    proof {
        assert(ops@.take(ops@.len() as int) =~= ops@);
    }
    out
}


/// How many ops one record yields: the store-record and agent-activity
/// pair, plus the header-type-specific ops, with the store-content op
/// counted only for public content.
pub open spec fn spec_ops_per_record(r: Record) -> nat {
    2 + match r.header.kind {
        HeaderKind::Create { visibility, .. } => if visibility == Visibility::Public {
            1nat
        } else {
            0nat
        },
        HeaderKind::Update { visibility, .. } => if visibility == Visibility::Public {
            3nat
        } else {
            2nat
        },
        HeaderKind::Delete { .. } => 2nat,
        HeaderKind::CreateLink { .. } => 1nat,
        HeaderKind::DeleteLink { .. } => 1nat,
        _ => 0nat,
    }
}

/// The derivation yields exactly the counted ops.
pub proof fn lemma_derive_ops_count(r: Record, ci: int, ri: int)
    ensures
        spec_derive_ops(r, ci, ri).len() == spec_ops_per_record(r),
{
}

/// How many ops one chain yields: one counted set per record.
pub open spec fn spec_chain_op_count(records: Seq<Record>) -> nat
    decreases records.len(),
{
    if records.len() == 0 {
        0
    } else {
        spec_chain_op_count(records.drop_last()) + spec_ops_per_record(records.last())
    }
}

/// How many ops the whole dataset yields, chain by chain.
pub open spec fn spec_total_op_count(chains: Seq<Chain>) -> nat
    decreases chains.len(),
{
    if chains.len() == 0 {
        0
    } else {
        spec_total_op_count(chains.drop_last()) + spec_chain_op_count(chains.last().records@)
    }
}

/// A chain's derived op list has one counted set per record.
pub proof fn lemma_chain_op_count(records: Seq<Record>, ci: int)
    ensures
        spec_chain_ops(records, ci).len() == spec_chain_op_count(records),
    decreases records.len(),
{
    if records.len() > 0 {
        lemma_chain_op_count(records.drop_last(), ci);
        lemma_derive_ops_count(records.last(), ci, records.len() - 1);
    }
}

/// The dataset's derived op list has one counted set per record of every
/// chain.
pub proof fn lemma_total_op_count(chains: Seq<Chain>)
    ensures
        spec_all_ops(chains).len() == spec_total_op_count(chains),
    decreases chains.len(),
{
    if chains.len() > 0 {
        lemma_total_op_count(chains.drop_last());
        lemma_chain_op_count(chains.last().records@, chains.len() - 1);
    }
}

} // verus!
