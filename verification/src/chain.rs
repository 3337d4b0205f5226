//! Chain synthesis: genesis triples and deterministically chained records.
//!
//! Every simulated agent owns one chain. The chain starts with the fixed
//! genesis triple (origin marker, validation package marker, self-identity
//! record, at sequence numbers 0, 1 and 2) and continues with one record per
//! generated content item. Each record's timestamp is one microsecond after
//! its predecessor's, its sequence number increments by one, and its
//! previous-hash pointer is the predecessor's content address.

use vstd::prelude::*;

use crate::data::{Header, HeaderKind, Record, Visibility};
use crate::hash::{byte_digest_of, digest_bytes};

verus! {

/// A fatal generation-time failure; the whole run for the agent aborts.
#[derive(Clone, Copy, Debug, PartialEq, Eq, Structural)]
pub enum GenError {
    /// The signing oracle failed.
    SignFailed,
    /// A builder input was missing a required field with no default.
    MissingField,
}

/// The signing oracle: an external service that signs a payload for an
/// agent. Failure is fatal for the calling generation task. Nothing is
/// assumed of the signature values it returns.
pub trait SignOracle {
    /// Sign `payload` on behalf of `author`.
    fn sign(&mut self, author: u64, payload: u64) -> Result<u64, GenError>;
}

/// A deterministic stand-in for a real key store, for fully in-memory runs.
pub struct MockSigner {
    /// Number of signatures produced so far.
    pub signed: u64,
}

impl MockSigner {
    pub fn new() -> (r: MockSigner)
        ensures
            r.signed == 0,
    {
        MockSigner { signed: 0 }
    }
}

impl SignOracle for MockSigner {
    fn sign(&mut self, author: u64, payload: u64) -> Result<u64, GenError> {
        self.signed = self.signed.wrapping_add(1);
        Ok((author ^ payload).wrapping_mul(crate::hash::HASH_PRIME))
    }
}

/// The little-endian bytes of an agent key, used as the self-identity
/// record's content.
pub open spec fn spec_key_bytes(v: u64) -> Seq<u8> {
    Seq::new(8, |i: int| ((v >> (8 * i)) % 256) as u8)
}

/// Serialize an agent key into its content bytes.
pub fn key_bytes(v: u64) -> (r: Vec<u8>)
    ensures
        r@ == spec_key_bytes(v),
{
    let mut out: Vec<u8> = Vec::new();
    let mut i: usize = 0;
    while i < 8
        invariant
            i <= 8,
            out@.len() == i,
            forall|j: int| 0 <= j < i ==> out@[j] == ((v >> (8 * j)) % 256) as u8,
        decreases 8 - i,
    {
        out.push(((v >> ((8 * i) as u64)) % 256) as u8);
        i = i + 1;
    }
    proof {
        assert(out@ =~= spec_key_bytes(v));
    }
    out
}

/// One application-level item to append to a chain.
#[derive(Clone, Debug, PartialEq, Eq)]
pub enum ChainItem {
    /// New content with a visibility; the entry bytes become the payload.
    Entry { bytes: Vec<u8>, visibility: Visibility },
    /// Replacement content pointing back at the original addresses.
    Update {
        original_entry_address: u64,
        original_header_address: u64,
        bytes: Vec<u8>,
        visibility: Visibility,
    },
    /// Tombstone for an earlier record.
    Delete { deletes_address: u64, deletes_entry_address: u64 },
    /// A link between two addresses.
    Link { base_address: u64, target_address: u64, zome_id: u8, tag: Vec<u8> },
    /// Removal of an earlier link.
    Unlink { link_add_address: u64, base_address: u64 },
    /// Migration marker from another namespace.
    OpenChain { prev_dna_hash: u64 },
    /// Migration marker to another namespace.
    CloseChain { new_dna_hash: u64 },
    /// Marker that chain initialisation completed.
    InitZomesComplete,
}

impl ChainItem {
    /// The header kind the item produces, with content addressed by digest.
    pub open spec fn spec_kind(self) -> HeaderKind {
        match self {
            ChainItem::Entry { bytes, visibility } => HeaderKind::Create {
                visibility,
                entry_hash: byte_digest_of(bytes@),
            },
            ChainItem::Update {
                original_entry_address,
                original_header_address,
                bytes,
                visibility,
            } => HeaderKind::Update {
                original_entry_address,
                original_header_address,
                visibility,
                entry_hash: byte_digest_of(bytes@),
            },
            ChainItem::Delete { deletes_address, deletes_entry_address } => HeaderKind::Delete {
                deletes_address,
                deletes_entry_address,
            },
            ChainItem::Link { base_address, target_address, zome_id, tag } => HeaderKind::CreateLink {
                base_address,
                target_address,
                zome_id,
                tag,
            },
            ChainItem::Unlink { link_add_address, base_address } => HeaderKind::DeleteLink {
                link_add_address,
                base_address,
            },
            ChainItem::OpenChain { prev_dna_hash } => HeaderKind::OpenChain { prev_dna_hash },
            ChainItem::CloseChain { new_dna_hash } => HeaderKind::CloseChain { new_dna_hash },
            ChainItem::InitZomesComplete => HeaderKind::InitZomesComplete,
        }
    }

    /// The payload the item carries, if any.
    pub open spec fn spec_entry(self) -> Option<Vec<u8>> {
        match self {
            ChainItem::Entry { bytes, .. } => Some(bytes),
            ChainItem::Update { bytes, .. } => Some(bytes),
            _ => None,
        }
    }
}

/// The monotonic chain invariant: well-formed, single-author records whose
/// sequence numbers count up from 0, whose timestamps strictly increase, and
/// whose previous-hash pointers follow the predecessors' content addresses,
/// opening with the fixed genesis triple.
pub open spec fn chain_wf(c: Seq<Record>, author: u64) -> bool {
    &&& c.len() >= 3
    &&& forall|i: int| 0 <= i < c.len() ==> (#[trigger] c[i]).wf()
    &&& forall|i: int| 0 <= i < c.len() ==> (#[trigger] c[i]).header.author == author
    &&& forall|i: int| 0 <= i < c.len() ==> (#[trigger] c[i]).header.seq == i
    &&& forall|i: int|
        1 <= i < c.len() ==> (#[trigger] c[i]).header.timestamp > c[i - 1].header.timestamp
    &&& forall|i: int|
        1 <= i < c.len() ==> (#[trigger] c[i]).header.prev_hash == c[i - 1].header_hash
    &&& c[0].header.prev_hash == 0
    &&& c[0].header.kind is Dna
    &&& c[1].header.kind is AgentValidationPkg
    &&& c[2].header.kind == (HeaderKind::Create {
        visibility: Visibility::Public,
        entry_hash: byte_digest_of(spec_key_bytes(author)),
    })
    &&& c[2].entry is Some
    &&& c[2].entry->0@ == spec_key_bytes(author)
}

/// One simulated agent's chain.
#[derive(Clone, Debug, PartialEq, Eq)]
pub struct Chain {
    /// The identity of the authoring agent.
    pub author: u64,
    /// The records, in chain order.
    pub records: Vec<Record>,
}

impl Chain {
    /// The chain invariant.
    pub open spec fn wf(self) -> bool {
        chain_wf(self.records@, self.author)
    }

    /// Timestamp of the newest record.
    pub open spec fn spec_head_timestamp(self) -> u64 {
        self.records@.last().header.timestamp
    }

    /// Build the genesis triple for an agent: the origin marker carrying the
    /// namespace address, the validation package marker, and the agent's
    /// self-identity record, at timestamps `start_time`, `start_time + 1`
    /// and `start_time + 2`.
    pub fn genesis<S: SignOracle>(
        signer: &mut S,
        author: u64,
        dna_hash: u64,
        start_time: u64,
        membrane_proof: Option<u64>,
    ) -> (r: Result<Chain, GenError>)
        requires
            start_time + 2 <= u64::MAX,
        ensures
            r is Ok ==> {
                let c = r->Ok_0;
                &&& c.wf()
                &&& c.author == author
                &&& c.records@.len() == 3
                &&& c.records@[0].header.kind == (HeaderKind::Dna { dna_hash })
                &&& c.records@[1].header.kind == (HeaderKind::AgentValidationPkg {
                    membrane_proof,
                })
                &&& c.records@[2].entry is Some
                &&& c.records@[2].entry->0@ == spec_key_bytes(author)
                &&& forall|i: int|
                    0 <= i < 3 ==> (#[trigger] c.records@[i]).header.timestamp == start_time + i
            },
    {
        let dna_header = Header {
            author,
            timestamp: start_time,
            seq: 0,
            prev_hash: 0,
            kind: HeaderKind::Dna { dna_hash },
        };
        let dna_hash_addr = crate::data::header_address(&dna_header);
        let dna_sig = signer.sign(author, dna_hash_addr)?;
        let dna_record = Record {
            header: dna_header,
            header_hash: dna_hash_addr,
            signature: dna_sig,
            entry: None,
        };

        let avp_header = Header {
            author,
            timestamp: start_time + 1,
            seq: 1,
            prev_hash: dna_hash_addr,
            kind: HeaderKind::AgentValidationPkg { membrane_proof },
        };
        let avp_hash_addr = crate::data::header_address(&avp_header);
        let avp_sig = signer.sign(author, avp_hash_addr)?;
        let avp_record = Record {
            header: avp_header,
            header_hash: avp_hash_addr,
            signature: avp_sig,
            entry: None,
        };

        let agent_entry = key_bytes(author);
        let agent_entry_hash = digest_bytes(&agent_entry);
        let agent_header = Header {
            author,
            timestamp: start_time + 2,
            seq: 2,
            prev_hash: avp_hash_addr,
            kind: HeaderKind::Create {
                visibility: Visibility::Public,
                entry_hash: agent_entry_hash,
            },
        };
        let agent_hash_addr = crate::data::header_address(&agent_header);
        let agent_sig = signer.sign(author, agent_hash_addr)?;
        let agent_record = Record {
            header: agent_header,
            header_hash: agent_hash_addr,
            signature: agent_sig,
            entry: Some(agent_entry),
        };

        let mut records: Vec<Record> = Vec::new();
        records.push(dna_record);
        records.push(avp_record);
        records.push(agent_record);
        Ok(Chain { author, records })
    }

    /// Append one item to the chain: the new record's timestamp is one
    /// microsecond after the head's, its sequence number one more, and its
    /// previous-hash pointer the head's content address. On oracle failure
    /// the chain is unchanged.
    pub fn append_item<S: SignOracle>(
        &mut self,
        item: ChainItem,
        signer: &mut S,
    ) -> (r: Result<u64, GenError>)
        requires
            old(self).wf(),
            old(self).spec_head_timestamp() < u64::MAX,
            old(self).records@.len() < u32::MAX,
        ensures
            final(self).author == old(self).author,
            r is Ok ==> {
                let n = old(self).records@.len() as int;
                let rec = final(self).records@[n];
                &&& final(self).wf()
                &&& final(self).records@.len() == n + 1
                &&& final(self).records@.take(n) == old(self).records@
                &&& rec.header.kind == item.spec_kind()
                &&& rec.entry == item.spec_entry()
                &&& rec.header.timestamp == old(self).spec_head_timestamp() + 1
                &&& r->Ok_0 == rec.header_hash
            },
            r is Err ==> *final(self) == *old(self),
    {
        let n = self.records.len();
        let last_ts = self.records[n - 1].header.timestamp;
        let last_hash = self.records[n - 1].header_hash;
        let (kind, entry): (HeaderKind, Option<Vec<u8>>) = match item {
            ChainItem::Entry { bytes, visibility } => {
                let entry_hash = digest_bytes(&bytes);
                (HeaderKind::Create { visibility, entry_hash }, Some(bytes))
            },
            ChainItem::Update {
                original_entry_address,
                original_header_address,
                bytes,
                visibility,
            } => {
                let entry_hash = digest_bytes(&bytes);
                (
                    HeaderKind::Update {
                        original_entry_address,
                        original_header_address,
                        visibility,
                        entry_hash,
                    },
                    Some(bytes),
                )
            },
            ChainItem::Delete { deletes_address, deletes_entry_address } => (
                HeaderKind::Delete { deletes_address, deletes_entry_address },
                None,
            ),
            ChainItem::Link { base_address, target_address, zome_id, tag } => (
                HeaderKind::CreateLink { base_address, target_address, zome_id, tag },
                None,
            ),
            ChainItem::Unlink { link_add_address, base_address } => (
                HeaderKind::DeleteLink { link_add_address, base_address },
                None,
            ),
            ChainItem::OpenChain { prev_dna_hash } => (
                HeaderKind::OpenChain { prev_dna_hash },
                None,
            ),
            ChainItem::CloseChain { new_dna_hash } => (
                HeaderKind::CloseChain { new_dna_hash },
                None,
            ),
            ChainItem::InitZomesComplete => (HeaderKind::InitZomesComplete, None),
        };
        let header = Header {
            author: self.author,
            timestamp: last_ts + 1,
            seq: n as u32,
            prev_hash: last_hash,
            kind,
        };
        let hash_addr = crate::data::header_address(&header);
        let sig = signer.sign(self.author, hash_addr)?;
        let record = Record { header, header_hash: hash_addr, signature: sig, entry };
        self.records.push(record);
        proof {
            assert(self.records@.take(n as int) =~= old(self).records@);
        }
        Ok(hash_addr)
    }

    /// Append new content, as the application's commit call would.
    pub fn create<S: SignOracle>(
        &mut self,
        bytes: Vec<u8>,
        visibility: Visibility,
        signer: &mut S,
    ) -> (r: Result<u64, GenError>)
        requires
            old(self).wf(),
            old(self).spec_head_timestamp() < u64::MAX,
            old(self).records@.len() < u32::MAX,
        ensures
            final(self).author == old(self).author,
            r is Ok ==> {
                let n = old(self).records@.len() as int;
                let rec = final(self).records@[n];
                &&& final(self).wf()
                &&& final(self).records@.len() == n + 1
                &&& final(self).records@.take(n) == old(self).records@
                &&& rec.header.kind == (HeaderKind::Create {
                    visibility,
                    entry_hash: byte_digest_of(bytes@),
                })
                &&& rec.entry == Some(bytes)
                &&& r->Ok_0 == rec.header_hash
            },
            r is Err ==> *final(self) == *old(self),
    {
        self.append_item(ChainItem::Entry { bytes, visibility }, signer)
    }

    /// Append a link between two addresses, as the application's link call
    /// would.
    pub fn create_link<S: SignOracle>(
        &mut self,
        base_address: u64,
        target_address: u64,
        zome_id: u8,
        tag: Vec<u8>,
        signer: &mut S,
    ) -> (r: Result<u64, GenError>)
        requires
            old(self).wf(),
            old(self).spec_head_timestamp() < u64::MAX,
            old(self).records@.len() < u32::MAX,
        ensures
            final(self).author == old(self).author,
            r is Ok ==> {
                let n = old(self).records@.len() as int;
                let rec = final(self).records@[n];
                &&& final(self).wf()
                &&& final(self).records@.len() == n + 1
                &&& final(self).records@.take(n) == old(self).records@
                &&& rec.header.kind == (HeaderKind::CreateLink {
                    base_address,
                    target_address,
                    zome_id,
                    tag,
                })
                &&& rec.entry is None
                &&& r->Ok_0 == rec.header_hash
            },
            r is Err ==> *final(self) == *old(self),
    {
        self.append_item(
            ChainItem::Link { base_address, target_address, zome_id, tag },
            signer,
        )
    }

    /// Look a record up by its header address: the first record whose
    /// content address matches, or nothing.
    pub fn read(&self, hash: u64) -> (r: Option<&Record>)
        ensures
            match r {
                Some(rec) => exists|i: int|
                    0 <= i < self.records@.len() && *rec == (#[trigger] self.records@[i])
                        && self.records@[i].header_hash == hash && (forall|j: int|
                        0 <= j < i ==> (#[trigger] self.records@[j]).header_hash != hash),
                None => forall|i: int|
                    0 <= i < self.records@.len() ==> (#[trigger] self.records@[i]).header_hash
                        != hash,
            },
    {
        let mut i: usize = 0;
        while i < self.records.len()
            invariant
                i <= self.records@.len(),
                forall|j: int| 0 <= j < i ==> (#[trigger] self.records@[j]).header_hash != hash,
            decreases self.records@.len() - i,
        {
            if self.records[i].header_hash == hash {
                return Some(&self.records[i]);
            }
            i = i + 1;
        }
        None
    }
}

} // verus!
