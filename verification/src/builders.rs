//! Builders for chain items: any field left unset is filled from the byte
//! source, so a test can pin exactly the fields it cares about.

use vstd::prelude::*;

use crate::bytes::ByteSource;
use crate::chain::ChainItem;
use crate::data::Visibility;

verus! {

/// Default length of a generated entry payload.
pub const DEFAULT_ENTRY_LEN: usize = 32;

/// Default length of a generated link tag.
pub const DEFAULT_TAG_LEN: usize = 8;

/// Builder for a content record.
pub struct CreateBuilder {
    pub entry: Option<Vec<u8>>,
    pub visibility: Option<Visibility>,
}

impl CreateBuilder {
    /// An empty builder: every field drawn from the byte source.
    pub fn new() -> (r: CreateBuilder)
        ensures
            r.entry is None,
            r.visibility is None,
    {
        CreateBuilder { entry: None, visibility: None }
    }

    /// Fill the unset fields and build the item; unset visibility defaults
    /// to public.
    pub fn build(self, src: &mut ByteSource) -> (r: ChainItem)
        ensures
            r is Entry,
            self.entry is Some ==> r->Entry_bytes == self.entry->0,
            match self.visibility {
                Some(v) => r->Entry_visibility == v,
                None => r->Entry_visibility == Visibility::Public,
            },
    {
        let bytes = match self.entry {
            Some(b) => b,
            None => src.next_bytes(DEFAULT_ENTRY_LEN),
        };
        let visibility = match self.visibility {
            Some(v) => v,
            None => Visibility::Public,
        };
        ChainItem::Entry { bytes, visibility }
    }
}

/// Builder for a replacement record.
pub struct UpdateBuilder {
    pub original_entry_address: Option<u64>,
    pub original_header_address: Option<u64>,
    pub entry: Option<Vec<u8>>,
    pub visibility: Option<Visibility>,
}

impl UpdateBuilder {
    pub fn new() -> (r: UpdateBuilder)
        ensures
            r.original_entry_address is None,
            r.original_header_address is None,
            r.entry is None,
            r.visibility is None,
    {
        UpdateBuilder {
            original_entry_address: None,
            original_header_address: None,
            entry: None,
            visibility: None,
        }
    }

    /// Fill the unset fields and build the item.
    pub fn build(self, src: &mut ByteSource) -> (r: ChainItem)
        ensures
            r is Update,
            self.original_entry_address is Some ==> r->Update_original_entry_address
                == self.original_entry_address->0,
            self.original_header_address is Some ==> r->Update_original_header_address
                == self.original_header_address->0,
            self.entry is Some ==> r->Update_bytes == self.entry->0,
            match self.visibility {
                Some(v) => r->Update_visibility == v,
                None => r->Update_visibility == Visibility::Public,
            },
    {
        let original_entry_address = match self.original_entry_address {
            Some(a) => a,
            None => src.next_u64(),
        };
        let original_header_address = match self.original_header_address {
            Some(a) => a,
            None => src.next_u64(),
        };
        let bytes = match self.entry {
            Some(b) => b,
            None => src.next_bytes(DEFAULT_ENTRY_LEN),
        };
        let visibility = match self.visibility {
            Some(v) => v,
            None => Visibility::Public,
        };
        ChainItem::Update { original_entry_address, original_header_address, bytes, visibility }
    }
}

/// Builder for a tombstone record.
pub struct DeleteBuilder {
    pub deletes_address: Option<u64>,
    pub deletes_entry_address: Option<u64>,
}

impl DeleteBuilder {
    pub fn new() -> (r: DeleteBuilder)
        ensures
            r.deletes_address is None,
            r.deletes_entry_address is None,
    {
        DeleteBuilder { deletes_address: None, deletes_entry_address: None }
    }

    /// Fill the unset fields and build the item.
    pub fn build(self, src: &mut ByteSource) -> (r: ChainItem)
        ensures
            r is Delete,
            self.deletes_address is Some ==> r->Delete_deletes_address == self.deletes_address->0,
            self.deletes_entry_address is Some ==> r->Delete_deletes_entry_address
                == self.deletes_entry_address->0,
    {
        let deletes_address = match self.deletes_address {
            Some(a) => a,
            None => src.next_u64(),
        };
        let deletes_entry_address = match self.deletes_entry_address {
            Some(a) => a,
            None => src.next_u64(),
        };
        ChainItem::Delete { deletes_address, deletes_entry_address }
    }
}

/// Builder for a link record.
pub struct CreateLinkBuilder {
    pub base_address: Option<u64>,
    pub target_address: Option<u64>,
    pub zome_id: Option<u8>,
    pub tag: Option<Vec<u8>>,
}

impl CreateLinkBuilder {
    pub fn new() -> (r: CreateLinkBuilder)
        ensures
            r.base_address is None,
            r.target_address is None,
            r.zome_id is None,
            r.tag is None,
    {
        CreateLinkBuilder { base_address: None, target_address: None, zome_id: None, tag: None }
    }

    /// Fill the unset fields and build the item.
    pub fn build(self, src: &mut ByteSource) -> (r: ChainItem)
        ensures
            r is Link,
            self.base_address is Some ==> r->Link_base_address == self.base_address->0,
            self.target_address is Some ==> r->Link_target_address == self.target_address->0,
            self.zome_id is Some ==> r->Link_zome_id == self.zome_id->0,
            self.tag is Some ==> r->Link_tag == self.tag->0,
    {
        let base_address = match self.base_address {
            Some(a) => a,
            None => src.next_u64(),
        };
        let target_address = match self.target_address {
            Some(a) => a,
            None => src.next_u64(),
        };
        let zome_id = match self.zome_id {
            Some(z) => z,
            None => (src.next_u64() % 256) as u8,
        };
        let tag = match self.tag {
            Some(t) => t,
            None => src.next_bytes(DEFAULT_TAG_LEN),
        };
        ChainItem::Link { base_address, target_address, zome_id, tag }
    }
}

/// Builder for a link removal record.
pub struct DeleteLinkBuilder {
    pub link_add_address: Option<u64>,
    pub base_address: Option<u64>,
}

impl DeleteLinkBuilder {
    pub fn new() -> (r: DeleteLinkBuilder)
        ensures
            r.link_add_address is None,
            r.base_address is None,
    {
        DeleteLinkBuilder { link_add_address: None, base_address: None }
    }

    /// Fill the unset fields and build the item.
    pub fn build(self, src: &mut ByteSource) -> (r: ChainItem)
        ensures
            r is Unlink,
            self.link_add_address is Some ==> r->Unlink_link_add_address
                == self.link_add_address->0,
            self.base_address is Some ==> r->Unlink_base_address == self.base_address->0,
    {
        let link_add_address = match self.link_add_address {
            Some(a) => a,
            None => src.next_u64(),
        };
        let base_address = match self.base_address {
            Some(a) => a,
            None => src.next_u64(),
        };
        ChainItem::Unlink { link_add_address, base_address }
    }
}

/// Builder for a chain migration marker from another namespace.
pub struct OpenChainBuilder {
    pub prev_dna_hash: Option<u64>,
}

impl OpenChainBuilder {
    pub fn new() -> (r: OpenChainBuilder)
        ensures
            r.prev_dna_hash is None,
    {
        OpenChainBuilder { prev_dna_hash: None }
    }

    /// Fill the unset field and build the item.
    pub fn build(self, src: &mut ByteSource) -> (r: ChainItem)
        ensures
            r is OpenChain,
            self.prev_dna_hash is Some ==> r->OpenChain_prev_dna_hash == self.prev_dna_hash->0,
    {
        let prev_dna_hash = match self.prev_dna_hash {
            Some(a) => a,
            None => src.next_u64(),
        };
        ChainItem::OpenChain { prev_dna_hash }
    }
}

/// Builder for a chain migration marker to another namespace.
pub struct CloseChainBuilder {
    pub new_dna_hash: Option<u64>,
}

impl CloseChainBuilder {
    pub fn new() -> (r: CloseChainBuilder)
        ensures
            r.new_dna_hash is None,
    {
        CloseChainBuilder { new_dna_hash: None }
    }

    /// Fill the unset field and build the item.
    pub fn build(self, src: &mut ByteSource) -> (r: ChainItem)
        ensures
            r is CloseChain,
            self.new_dna_hash is Some ==> r->CloseChain_new_dna_hash == self.new_dna_hash->0,
    {
        let new_dna_hash = match self.new_dna_hash {
            Some(a) => a,
            None => src.next_u64(),
        };
        ChainItem::CloseChain { new_dna_hash }
    }
}

} // verus!
