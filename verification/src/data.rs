//! The simulated data model: headers, records and peer announcements.
//!
//! Outside collaborators (key stores, hashing and transport libraries of the
//! real platform) deal in opaque key and hash types; the simulator models
//! every address as a plain `u64` and every agent identity as a plain `u64`
//! key, so the chain and sharding rules can be stated and checked exactly.

use vstd::prelude::*;

use crate::hash::{byte_digest_of, digest_of, digest_words, spec_loc_of};
use crate::ring::StorageArc;

verus! {

/// Whether a record's content is visible to other agents.
#[derive(Clone, Copy, Debug, PartialEq, Eq, Structural)]
pub enum Visibility {
    Public,
    Private,
}

/// The type-specific part of a record's header.
///
/// The variants mirror the header types of the real chain model: the three
/// genesis headers, content-bearing headers, link headers, and the chain
/// management headers.
#[derive(Clone, Debug, PartialEq, Eq)]
pub enum HeaderKind {
    /// Genesis origin marker, carrying the namespace (DNA) address.
    Dna { dna_hash: u64 },
    /// Genesis validation package marker.
    AgentValidationPkg { membrane_proof: Option<u64> },
    /// Marker that chain initialisation completed.
    InitZomesComplete,
    /// New content with a given visibility.
    Create { visibility: Visibility, entry_hash: u64 },
    /// Replacement of earlier content.
    Update {
        original_entry_address: u64,
        original_header_address: u64,
        visibility: Visibility,
        entry_hash: u64,
    },
    /// Tombstone for an earlier record.
    Delete { deletes_address: u64, deletes_entry_address: u64 },
    /// A link from a base address to a target address.
    CreateLink { base_address: u64, target_address: u64, zome_id: u8, tag: Vec<u8> },
    /// Removal of an earlier link.
    DeleteLink { link_add_address: u64, base_address: u64 },
    /// Migration marker: chain continues from another namespace.
    OpenChain { prev_dna_hash: u64 },
    /// Migration marker: chain continues in another namespace.
    CloseChain { new_dna_hash: u64 },
}

/// The common part of a record's header plus its type-specific fields.
#[derive(Clone, Debug, PartialEq, Eq)]
pub struct Header {
    /// Identity of the authoring agent.
    pub author: u64,
    /// Microseconds since the epoch.
    pub timestamp: u64,
    /// Position in the author's chain, starting at 0.
    pub seq: u32,
    /// Address of the previous record's header; 0 for the chain's first.
    pub prev_hash: u64,
    pub kind: HeaderKind,
}

impl HeaderKind {
    /// A small tag distinguishing the variants in the serialized form.
    pub open spec fn spec_tag(self) -> u64 {
        match self {
            HeaderKind::Dna { .. } => 1,
            HeaderKind::AgentValidationPkg { .. } => 2,
            HeaderKind::InitZomesComplete => 3,
            HeaderKind::Create { .. } => 4,
            HeaderKind::Update { .. } => 5,
            HeaderKind::Delete { .. } => 6,
            HeaderKind::CreateLink { .. } => 7,
            HeaderKind::DeleteLink { .. } => 8,
            HeaderKind::OpenChain { .. } => 9,
            HeaderKind::CloseChain { .. } => 10,
        }
    }

    /// The serialized type-specific fields, one word each; a link tag is
    /// absorbed byte by byte.
    pub open spec fn spec_words(self) -> Seq<u64> {
        match self {
            HeaderKind::Dna { dna_hash } => seq![dna_hash],
            HeaderKind::AgentValidationPkg { membrane_proof } => match membrane_proof {
                Some(p) => seq![1u64, p],
                None => seq![0u64, 0u64],
            },
            HeaderKind::InitZomesComplete => seq![],
            HeaderKind::Create { visibility, entry_hash } => seq![
                visibility_word(visibility),
                entry_hash,
            ],
            HeaderKind::Update {
                original_entry_address,
                original_header_address,
                visibility,
                entry_hash,
            } => seq![
                original_entry_address,
                original_header_address,
                visibility_word(visibility),
                entry_hash,
            ],
            HeaderKind::Delete { deletes_address, deletes_entry_address } => seq![
                deletes_address,
                deletes_entry_address,
            ],
            HeaderKind::CreateLink { base_address, target_address, zome_id, tag } => seq![
                base_address,
                target_address,
                zome_id as u64,
            ] + tag@.map(|i: int, b: u8| b as u64),
            HeaderKind::DeleteLink { link_add_address, base_address } => seq![
                link_add_address,
                base_address,
            ],
            HeaderKind::OpenChain { prev_dna_hash } => seq![prev_dna_hash],
            HeaderKind::CloseChain { new_dna_hash } => seq![new_dna_hash],
        }
    }

    /// The content visibility the variant carries, if it bears content.
    pub open spec fn spec_visibility(self) -> Option<Visibility> {
        match self {
            HeaderKind::Create { visibility, .. } => Some(visibility),
            HeaderKind::Update { visibility, .. } => Some(visibility),
            _ => None,
        }
    }

    /// The entry address the variant carries, if it bears content.
    pub open spec fn spec_entry_hash(self) -> Option<u64> {
        match self {
            HeaderKind::Create { entry_hash, .. } => Some(entry_hash),
            HeaderKind::Update { entry_hash, .. } => Some(entry_hash),
            _ => None,
        }
    }
}

/// Serialization word for a visibility flag.
pub open spec fn visibility_word(v: Visibility) -> u64 {
    match v {
        Visibility::Public => 0,
        Visibility::Private => 1,
    }
}

impl Header {
    /// The serialized form of the whole header, as digest input.
    pub open spec fn spec_words(self) -> Seq<u64> {
        seq![self.author, self.timestamp, self.seq as u64, self.prev_hash, self.kind.spec_tag()]
            + self.kind.spec_words()
    }

    /// The header's content address.
    pub open spec fn spec_hash(self) -> u64 {
        digest_of(self.spec_words())
    }

    /// The ring location of the header's address.
    pub open spec fn spec_loc(self) -> u32 {
        spec_loc_of(self.spec_hash())
    }
}

/// Serialize a header into digest input words.
pub fn header_words(h: &Header) -> (r: Vec<u64>)
    ensures
        r@ == h.spec_words(),
{
    let mut words: Vec<u64> = Vec::new();
    words.push(h.author);
    words.push(h.timestamp);
    words.push(h.seq as u64);
    words.push(h.prev_hash);
    match &h.kind {
        HeaderKind::Dna { dna_hash } => {
            words.push(1);
            words.push(*dna_hash);
        },
        HeaderKind::AgentValidationPkg { membrane_proof } => {
            words.push(2);
            match membrane_proof {
                Some(p) => {
                    words.push(1);
                    words.push(*p);
                },
                None => {
                    words.push(0);
                    words.push(0);
                },
            }
        },
        HeaderKind::InitZomesComplete => {
            words.push(3);
        },
        HeaderKind::Create { visibility, entry_hash } => {
            words.push(4);
            words.push(if *visibility == Visibility::Public { 0 } else { 1 });
            words.push(*entry_hash);
        },
        HeaderKind::Update {
            original_entry_address,
            original_header_address,
            visibility,
            entry_hash,
        } => {
            words.push(5);
            words.push(*original_entry_address);
            words.push(*original_header_address);
            words.push(if *visibility == Visibility::Public { 0 } else { 1 });
            words.push(*entry_hash);
        },
        HeaderKind::Delete { deletes_address, deletes_entry_address } => {
            words.push(6);
            words.push(*deletes_address);
            words.push(*deletes_entry_address);
        },
        HeaderKind::CreateLink { base_address, target_address, zome_id, tag } => {
            words.push(7);
            words.push(*base_address);
            words.push(*target_address);
            words.push(*zome_id as u64);
            let ghost prefix = words@;
            let mut i: usize = 0;
            while i < tag.len()
                invariant
                    i <= tag.len(),
                    words@ == prefix + tag@.take(i as int).map(|j: int, b: u8| b as u64),
                decreases tag.len() - i,
            {
                proof {
                    assert(tag@.take(i + 1).map(|j: int, b: u8| b as u64) =~= tag@.take(
                        i as int,
                    ).map(|j: int, b: u8| b as u64) + seq![tag@[i as int] as u64]);
                }
                words.push(tag[i] as u64);
                i = i + 1;
            }
            proof {
                assert(tag@.take(tag@.len() as int) =~= tag@);
            }
        },
        HeaderKind::DeleteLink { link_add_address, base_address } => {
            words.push(8);
            words.push(*link_add_address);
            words.push(*base_address);
        },
        HeaderKind::OpenChain { prev_dna_hash } => {
            words.push(9);
            words.push(*prev_dna_hash);
        },
        HeaderKind::CloseChain { new_dna_hash } => {
            words.push(10);
            words.push(*new_dna_hash);
        },
    }
    proof {
        assert(words@ =~= h.spec_words());
    }
    words
}

/// Compute a header's content address.
pub fn header_address(h: &Header) -> (r: u64)
    ensures
        r == h.spec_hash(),
{
    let words = header_words(h);
    digest_words(&words)
}

/// A signed, content-addressed chain record with its optional content.
#[derive(Clone, Debug, PartialEq, Eq)]
pub struct Record {
    pub header: Header,
    /// Content address of the header: `header.spec_hash()`.
    pub header_hash: u64,
    /// Signature over the header's address, produced by the signing oracle.
    pub signature: u64,
    /// The content payload, present exactly for content-bearing headers.
    pub entry: Option<Vec<u8>>,
}

impl Record {
    /// Well-formedness: the stored address is the header's digest, and the
    /// payload is present exactly when the header bears content, with the
    /// header's entry address being the payload's digest.
    pub open spec fn wf(self) -> bool {
        &&& self.header_hash == self.header.spec_hash()
        &&& match self.header.kind.spec_entry_hash() {
            Some(eh) => self.entry is Some && byte_digest_of(self.entry->0@) == eh,
            None => self.entry is None,
        }
    }

    /// Whether the record's content is public; records without content count
    /// as public, mirroring the storage layer's visibility rule.
    pub open spec fn spec_is_public(self) -> bool {
        match self.header.kind.spec_visibility() {
            Some(v) => v == Visibility::Public,
            None => true,
        }
    }

    /// Whether the record's content may be shown to other agents.
    pub fn is_public(&self) -> (r: bool)
        ensures
            r == self.spec_is_public(),
    {
        match &self.header.kind {
            HeaderKind::Create { visibility, .. } => *visibility == Visibility::Public,
            HeaderKind::Update { visibility, .. } => *visibility == Visibility::Public,
            _ => true,
        }
    }
}

/// A signed, time-bounded announcement binding an agent to a storage arc and
/// a list of reachable addresses.
#[derive(Clone, Debug, PartialEq, Eq)]
pub struct PeerInfo {
    /// The announced agent's identity.
    pub agent: u64,
    /// The namespace (DNA) the announcement is scoped to.
    pub space: u64,
    /// The portion of the ring the agent claims to hold.
    pub storage_arc: StorageArc,
    /// Reachable addresses; a placeholder ephemeral address when no real
    /// transport endpoint is bound.
    pub urls: Vec<String>,
    /// Milliseconds since the epoch at which the announcement was signed.
    pub signed_at_ms: u64,
    /// Milliseconds since the epoch at which the announcement expires.
    pub expires_at_ms: u64,
    /// Signature over the announcement, produced by the signing oracle.
    pub signature: u64,
}

/// Sameness of header kinds up to byte-buffer views: equal fields, with a
/// link tag compared by its contents. Copies of a kind are `kind_like` the
/// original even when the tag buffer is a fresh allocation.
pub open spec fn kind_like(a: HeaderKind, b: HeaderKind) -> bool {
    match (a, b) {
        (
            HeaderKind::CreateLink { base_address: ab, target_address: at, zome_id: az, tag: atag },
            HeaderKind::CreateLink { base_address: bb, target_address: bt, zome_id: bz, tag: btag },
        ) => ab == bb && at == bt && az == bz && atag@ == btag@,
        _ => a == b,
    }
}

/// Sameness of headers up to byte-buffer views.
pub open spec fn header_like(a: Header, b: Header) -> bool {
    &&& a.author == b.author
    &&& a.timestamp == b.timestamp
    &&& a.seq == b.seq
    &&& a.prev_hash == b.prev_hash
    &&& kind_like(a.kind, b.kind)
}

/// Sameness of records up to byte-buffer views.
pub open spec fn record_like(a: Record, b: Record) -> bool {
    &&& header_like(a.header, b.header)
    &&& a.header_hash == b.header_hash
    &&& a.signature == b.signature
    &&& match (a.entry, b.entry) {
        (Some(ae), Some(be)) => ae@ == be@,
        (None, None) => true,
        _ => false,
    }
}

/// Sameness of peer announcements up to address-list views.
pub open spec fn peer_like(a: PeerInfo, b: PeerInfo) -> bool {
    &&& a.agent == b.agent
    &&& a.space == b.space
    &&& a.storage_arc == b.storage_arc
    &&& a.urls@ == b.urls@
    &&& a.signed_at_ms == b.signed_at_ms
    &&& a.expires_at_ms == b.expires_at_ms
    &&& a.signature == b.signature
}

/// Headers that are the same up to views serialize, and therefore hash, the
/// same.
pub proof fn lemma_header_like_hash(a: Header, b: Header)
    requires
        header_like(a, b),
    ensures
        a.spec_words() == b.spec_words(),
        a.spec_hash() == b.spec_hash(),
{
    assert(a.spec_words() =~= b.spec_words());
}

/// Records that are the same up to views agree on well-formedness and
/// visibility.
pub proof fn lemma_record_like_wf(a: Record, b: Record)
    requires
        record_like(a, b),
    ensures
        a.wf() == b.wf(),
        a.spec_is_public() == b.spec_is_public(),
{
    lemma_header_like_hash(a.header, b.header);
}

/// Copy a byte vector; the copy's contents equal the original's.
pub fn copy_bytes(v: &Vec<u8>) -> (r: Vec<u8>)
    ensures
        r@ == v@,
{
    let r = v.clone();
    proof {
        assert forall|i: int| 0 <= i < v@.len() implies r@[i] == v@[i] by {
            assert(cloned::<u8>(v@[i], r@[i]));
        }
        assert(r@ =~= v@);
    }
    r
}

/// Copy a list of address strings; the copy equals the original.
pub fn copy_strings(v: &Vec<String>) -> (r: Vec<String>)
    ensures
        r@ == v@,
{
    let r = v.clone();
    proof {
        assert forall|i: int| 0 <= i < v@.len() implies r@[i] == v@[i] by {
            assert(cloned::<String>(v@[i], r@[i]));
        }
        assert(r@ =~= v@);
    }
    r
}

/// Copy a header kind; the copy is the original up to views.
pub fn copy_kind(k: &HeaderKind) -> (r: HeaderKind)
    ensures
        kind_like(r, *k),
{
    match k {
        HeaderKind::Dna { dna_hash } => HeaderKind::Dna { dna_hash: *dna_hash },
        HeaderKind::AgentValidationPkg { membrane_proof } => HeaderKind::AgentValidationPkg {
            membrane_proof: *membrane_proof,
        },
        HeaderKind::InitZomesComplete => HeaderKind::InitZomesComplete,
        HeaderKind::Create { visibility, entry_hash } => HeaderKind::Create {
            visibility: *visibility,
            entry_hash: *entry_hash,
        },
        HeaderKind::Update {
            original_entry_address,
            original_header_address,
            visibility,
            entry_hash,
        } => HeaderKind::Update {
            original_entry_address: *original_entry_address,
            original_header_address: *original_header_address,
            visibility: *visibility,
            entry_hash: *entry_hash,
        },
        HeaderKind::Delete { deletes_address, deletes_entry_address } => HeaderKind::Delete {
            deletes_address: *deletes_address,
            deletes_entry_address: *deletes_entry_address,
        },
        HeaderKind::CreateLink { base_address, target_address, zome_id, tag } => {
            HeaderKind::CreateLink {
                base_address: *base_address,
                target_address: *target_address,
                zome_id: *zome_id,
                tag: copy_bytes(tag),
            }
        },
        HeaderKind::DeleteLink { link_add_address, base_address } => HeaderKind::DeleteLink {
            link_add_address: *link_add_address,
            base_address: *base_address,
        },
        HeaderKind::OpenChain { prev_dna_hash } => HeaderKind::OpenChain {
            prev_dna_hash: *prev_dna_hash,
        },
        HeaderKind::CloseChain { new_dna_hash } => HeaderKind::CloseChain {
            new_dna_hash: *new_dna_hash,
        },
    }
}

/// Copy a header; the copy is the original up to views.
pub fn copy_header(h: &Header) -> (r: Header)
    ensures
        header_like(r, *h),
{
    Header {
        author: h.author,
        timestamp: h.timestamp,
        seq: h.seq,
        prev_hash: h.prev_hash,
        kind: copy_kind(&h.kind),
    }
}

/// Copy a record; the copy is the original up to views.
pub fn copy_record(rec: &Record) -> (r: Record)
    ensures
        record_like(r, *rec),
{
    Record {
        header: copy_header(&rec.header),
        header_hash: rec.header_hash,
        signature: rec.signature,
        entry: match &rec.entry {
            Some(bytes) => Some(copy_bytes(bytes)),
            None => None,
        },
    }
}

/// Copy a peer announcement; the copy is the original up to views.
pub fn copy_peer_info(p: &PeerInfo) -> (r: PeerInfo)
    ensures
        peer_like(r, *p),
{
    PeerInfo {
        agent: p.agent,
        space: p.space,
        storage_arc: p.storage_arc,
        urls: copy_strings(&p.urls),
        signed_at_ms: p.signed_at_ms,
        expires_at_ms: p.expires_at_ms,
        signature: p.signature,
    }
}

/// An address that may name either a record's content or its header.
#[derive(Clone, Copy, Debug, PartialEq, Eq, Structural)]
pub enum AnyDhtHash {
    Entry(u64),
    Header(u64),
}

} // verus!
