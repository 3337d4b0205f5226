//! Generation and index-building behavior of the simulated-peer engine.

use mock_network::agent_info::{GenerateAgentInfo, Settings, FULL_HALF_LENGTH};
use mock_network::builders::{
    CloseChainBuilder, CreateBuilder, CreateLinkBuilder, DeleteBuilder, DeleteLinkBuilder,
    OpenChainBuilder, UpdateBuilder,
};
use mock_network::bytes::ByteSource;
use mock_network::chain::{Chain, ChainItem, GenError, MockSigner, SignOracle};
use mock_network::data::{HeaderKind, Visibility};
use mock_network::hash::digest_bytes;
use mock_network::index::GeneratedData;
use mock_network::ops::{derive_ops, OpType};
use mock_network::synth::{synthesize_chain, Generate, GenerateBatch, GenesisBuilder};

struct FailingSigner;

impl SignOracle for FailingSigner {
    fn sign(&mut self, _author: u64, _payload: u64) -> Result<u64, GenError> {
        Err(GenError::SignFailed)
    }
}

fn entry_item(bytes: &[u8], visibility: Visibility) -> ChainItem {
    ChainItem::Entry {
        bytes: bytes.to_vec(),
        visibility,
    }
}

fn gen_agent(author: u64, items: Vec<ChainItem>) -> Chain {
    let mut signer = MockSigner::new();
    let g = Generate {
        author,
        dna_hash: 0x1111,
        start_time: 1_000_000,
        membrane_proof: None,
        data: items,
    };
    synthesize_chain(&mut signer, g).unwrap()
}

fn three_agent_snapshot() -> GeneratedData {
    let mut signer = MockSigner::new();
    let mut src = ByteSource::with_seed(99);
    let mut agent_data = Vec::new();
    for author in [1u64, 2, 3] {
        let mut items = Vec::new();
        for _ in 0..10 {
            items.push(
                CreateBuilder {
                    entry: None,
                    visibility: Some(Visibility::Public),
                }
                .build(&mut src),
            );
        }
        agent_data.push(Generate {
            author,
            dna_hash: 0x1111,
            start_time: 1_000_000,
            membrane_proof: None,
            data: items,
        });
    }
    let chains = GenerateBatch { agent_data }.make(&mut signer).unwrap();
    let infos = GenerateAgentInfo {
        agent_keys: vec![1, 2, 3],
        space: 0x1111,
        settings: Settings {
            arc_half_length: FULL_HALF_LENGTH,
            signed_at_ms: 5_000,
            expires_at_ms: 3_605_000,
            urls: Vec::new(),
        },
    }
    .make(&mut signer)
    .unwrap();
    GeneratedData::new(chains, infos)
}

#[test]
fn chain_has_monotonic_timestamps_and_sequence() {
    let chain = gen_agent(
        7,
        vec![
            entry_item(b"one", Visibility::Public),
            entry_item(b"two", Visibility::Public),
            entry_item(b"three", Visibility::Public),
        ],
    );
    assert_eq!(chain.records.len(), 6);
    for (i, rec) in chain.records.iter().enumerate() {
        assert_eq!(rec.header.seq as usize, i);
        assert_eq!(rec.header.timestamp, 1_000_000 + i as u64);
        assert_eq!(rec.header.author, 7);
        if i > 0 {
            assert!(rec.header.timestamp > chain.records[i - 1].header.timestamp);
            assert_eq!(rec.header.prev_hash, chain.records[i - 1].header_hash);
        }
    }
    assert!(matches!(chain.records[0].header.kind, HeaderKind::Dna { .. }));
    assert!(matches!(
        chain.records[1].header.kind,
        HeaderKind::AgentValidationPkg { .. }
    ));
    assert!(matches!(
        chain.records[2].header.kind,
        HeaderKind::Create { .. }
    ));
    assert_eq!(chain.records[0].header.prev_hash, 0);
}

#[test]
fn rebuilding_indices_is_idempotent() {
    let a = three_agent_snapshot();
    let b = three_agent_snapshot();
    assert_eq!(a, b);
}

#[test]
fn private_store_content_op_is_absent_everywhere() {
    let secret = b"private words";
    let chain = gen_agent(
        5,
        vec![
            entry_item(secret, Visibility::Private),
            entry_item(b"open words", Visibility::Public),
        ],
    );
    let mut signer = MockSigner::new();
    let infos = GenerateAgentInfo {
        agent_keys: vec![5],
        space: 0x1111,
        settings: Settings {
            arc_half_length: FULL_HALF_LENGTH,
            signed_at_ms: 0,
            expires_at_ms: 10,
            urls: Vec::new(),
        },
    }
    .make(&mut signer)
    .unwrap();
    let snap = GeneratedData::new(vec![chain], infos);
    let secret_hash = digest_bytes(&secret.to_vec());
    let open_hash = digest_bytes(&b"open words".to_vec());
    for held in &snap.agent_held_ops {
        for op in held {
            assert!(!(op.op_type == OpType::StoreEntry && op.basis == secret_hash));
        }
    }
    // The public record's store-content op is present, so the filter is
    // visibility, not content in general.
    let found_open = snap.agent_held_ops[0]
        .iter()
        .any(|op| op.op_type == OpType::StoreEntry && op.basis == open_hash);
    assert!(found_open);
}

#[test]
fn three_full_arc_agents_hold_everything() {
    let snap = three_agent_snapshot();
    // Each chain: 3 genesis records (2 + 2 + 3 ops) and 10 public content
    // records (3 ops each): 37 ops; 3 agents: 111 ops in total.
    assert_eq!(snap.ops_by_loc.len(), 111);
    assert_eq!(snap.agent_info.len(), 3);
    for held in &snap.agent_held_ops {
        assert_eq!(held.len(), 111);
    }
    // Full arcs see every announcement, their own included.
    for held_peers in &snap.all_held_agents {
        assert_eq!(held_peers.len(), 3);
    }
    // Per chain, exactly 37 ops reference it: 7 from the genesis triple
    // and 10 x 3 from the generated content records.
    for ci in 0..3 {
        let per_chain = snap
            .ops_by_loc
            .iter()
            .filter(|op| op.chain_idx == ci)
            .count();
        assert_eq!(per_chain, 37);
        let content_ops = snap
            .ops_by_loc
            .iter()
            .filter(|op| op.chain_idx == ci && op.record_idx >= 3)
            .count();
        assert_eq!(content_ops, 30);
    }
}

#[test]
fn op_fetch_hides_private_content_but_returns_header() {
    let secret = b"hidden payload";
    let public = b"shared payload";
    let chain = gen_agent(
        9,
        vec![
            entry_item(secret, Visibility::Private),
            entry_item(public, Visibility::Public),
        ],
    );
    let private_record_hash = chain.records[3].header_hash;
    let mut signer = MockSigner::new();
    let infos = GenerateAgentInfo {
        agent_keys: vec![9],
        space: 0x1111,
        settings: Settings {
            arc_half_length: FULL_HALF_LENGTH,
            signed_at_ms: 0,
            expires_at_ms: 10,
            urls: Vec::new(),
        },
    }
    .make(&mut signer)
    .unwrap();
    let snap = GeneratedData::new(vec![chain], infos);
    let held = &snap.agent_held_ops[0];
    let private_op = held
        .iter()
        .find(|op| op.op_type == OpType::StoreElement && op.basis == private_record_hash)
        .unwrap();
    let public_op = held
        .iter()
        .find(|op| op.op_type == OpType::StoreEntry && op.basis == digest_bytes(&public.to_vec()))
        .unwrap();
    let fetched = snap.op_fetch(9, &vec![private_op.op_hash, public_op.op_hash]);
    assert_eq!(fetched.len(), 2);
    // Same header, no content for the private record.
    assert_eq!(fetched[0].header.timestamp, 1_000_003);
    assert!(fetched[0].entry.is_none());
    // Header and content for the public record.
    assert_eq!(fetched[1].header.timestamp, 1_000_004);
    assert_eq!(fetched[1].entry.as_deref(), Some(public.as_slice()));
    assert_eq!(fetched[1].header.prev_hash, private_record_hash);
    assert_eq!(fetched[0].op_hash, private_op.op_hash);
    assert_eq!(fetched[1].op_hash, public_op.op_hash);
}

#[test]
fn signing_failure_aborts_generation() {
    let mut signer = FailingSigner;
    let g = Generate {
        author: 1,
        dna_hash: 2,
        start_time: 0,
        membrane_proof: None,
        data: vec![],
    };
    assert_eq!(synthesize_chain(&mut signer, g), Err(GenError::SignFailed));
}

#[test]
fn genesis_builder_requires_author_and_namespace() {
    let missing = GenesisBuilder {
        author: None,
        dna_hash: Some(1),
        start_time: None,
        membrane_proof: None,
    };
    assert_eq!(missing.build(vec![]), Err(GenError::MissingField));
    let missing_dna = GenesisBuilder {
        author: Some(4),
        dna_hash: None,
        start_time: None,
        membrane_proof: None,
    };
    assert_eq!(missing_dna.build(vec![]), Err(GenError::MissingField));
    let complete = GenesisBuilder {
        author: Some(4),
        dna_hash: Some(1),
        start_time: Some(77),
        membrane_proof: None,
    };
    let g = complete.build(vec![]).unwrap();
    assert_eq!(g.author, 4);
    assert_eq!(g.dna_hash, 1);
    assert_eq!(g.start_time, 77);
}

#[test]
fn chain_create_and_read_round_trip() {
    let mut signer = MockSigner::new();
    let mut chain = Chain::genesis(&mut signer, 11, 0x2222, 500, None).unwrap();
    let hash = chain
        .create(b"note".to_vec(), Visibility::Public, &mut signer)
        .unwrap();
    let rec = chain.read(hash).unwrap();
    assert_eq!(rec.header_hash, hash);
    assert_eq!(rec.entry.as_deref(), Some(b"note".as_slice()));
    assert_eq!(rec.header.seq, 3);
    assert!(chain.read(hash ^ 1).is_none());
    let link_hash = chain
        .create_link(42, 43, 0, b"tag".to_vec(), &mut signer)
        .unwrap();
    let link_rec = chain.read(link_hash).unwrap();
    match &link_rec.header.kind {
        HeaderKind::CreateLink {
            base_address,
            target_address,
            tag,
            ..
        } => {
            assert_eq!(*base_address, 42);
            assert_eq!(*target_address, 43);
            assert_eq!(tag.as_slice(), b"tag");
        }
        other => panic!("expected a link header, got {:?}", other),
    }
}

#[test]
fn batch_yields_one_chain_per_agent() {
    let mut signer = MockSigner::new();
    let batch = GenerateBatch {
        agent_data: vec![
            Generate {
                author: 21,
                dna_hash: 5,
                start_time: 100,
                membrane_proof: Some(9),
                data: vec![entry_item(b"a", Visibility::Public)],
            },
            Generate {
                author: 22,
                dna_hash: 5,
                start_time: 100,
                membrane_proof: None,
                data: vec![],
            },
        ],
    };
    let chains = batch.make(&mut signer).unwrap();
    assert_eq!(chains.len(), 2);
    assert_eq!(chains[0].author, 21);
    assert_eq!(chains[0].records.len(), 4);
    assert_eq!(chains[1].author, 22);
    assert_eq!(chains[1].records.len(), 3);
    match chains[0].records[1].header.kind {
        HeaderKind::AgentValidationPkg { membrane_proof } => {
            assert_eq!(membrane_proof, Some(9))
        }
        _ => panic!("expected the validation package marker"),
    }
}

#[test]
fn derivation_rules_per_header_type() {
    let chain = gen_agent(
        13,
        vec![
            ChainItem::Entry {
                bytes: b"pub".to_vec(),
                visibility: Visibility::Public,
            },
            ChainItem::Entry {
                bytes: b"priv".to_vec(),
                visibility: Visibility::Private,
            },
            ChainItem::Update {
                original_entry_address: 0xE1,
                original_header_address: 0xF1,
                bytes: b"upd".to_vec(),
                visibility: Visibility::Public,
            },
            ChainItem::Update {
                original_entry_address: 0xE2,
                original_header_address: 0xF2,
                bytes: b"upd2".to_vec(),
                visibility: Visibility::Private,
            },
            ChainItem::Delete {
                deletes_address: 0xD1,
                deletes_entry_address: 0xD2,
            },
            ChainItem::Link {
                base_address: 0xB1,
                target_address: 0xB2,
                zome_id: 0,
                tag: vec![],
            },
            ChainItem::Unlink {
                link_add_address: 0xA1,
                base_address: 0xB1,
            },
            ChainItem::OpenChain { prev_dna_hash: 0x01 },
            ChainItem::CloseChain { new_dna_hash: 0x02 },
            ChainItem::InitZomesComplete,
        ],
    );
    // Base pair for every record: store-record and agent-activity ops.
    let expected = [
        2usize, // genesis origin marker
        2,      // genesis validation package marker
        3,      // genesis self-identity record (public content)
        3,      // public content
        2,      // private content: store-content suppressed
        5,      // public replacement: content, two update registrations
        4,      // private replacement
        4,      // tombstone: two delete registrations
        3,      // link
        3,      // link removal
        2,      // open-chain marker
        2,      // close-chain marker
        2,      // init marker
    ];
    for (ri, want) in expected.iter().enumerate() {
        let ops = derive_ops(&chain.records[ri], 0, ri);
        assert_eq!(ops.len(), *want, "record {}", ri);
        assert_eq!(ops[0].op_type, OpType::StoreElement);
        assert_eq!(ops[0].basis, chain.records[ri].header_hash);
        assert_eq!(ops[1].op_type, OpType::RegisterAgentActivity);
        assert_eq!(ops[1].basis, 13);
        for op in &ops {
            assert_eq!(op.timestamp, chain.records[ri].header.timestamp);
            assert_eq!(op.chain_idx, 0);
            assert_eq!(op.record_idx, ri);
        }
    }
}

#[test]
fn builders_keep_pinned_fields_and_fill_the_rest() {
    let mut src = ByteSource::with_seed(3);
    let link = CreateLinkBuilder {
        base_address: Some(0xB0),
        target_address: None,
        zome_id: None,
        tag: Some(b"fixed".to_vec()),
    }
    .build(&mut src);
    match link {
        ChainItem::Link {
            base_address, tag, ..
        } => {
            assert_eq!(base_address, 0xB0);
            assert_eq!(tag.as_slice(), b"fixed");
        }
        other => panic!("expected a link item, got {:?}", other),
    }
    let upd = UpdateBuilder {
        original_entry_address: Some(0xE9),
        original_header_address: None,
        entry: None,
        visibility: None,
    }
    .build(&mut src);
    match upd {
        ChainItem::Update {
            original_entry_address,
            visibility,
            ..
        } => {
            assert_eq!(original_entry_address, 0xE9);
            assert_eq!(visibility, Visibility::Public);
        }
        other => panic!("expected a replacement item, got {:?}", other),
    }
    let del = DeleteBuilder {
        deletes_address: Some(0xD9),
        deletes_entry_address: None,
    }
    .build(&mut src);
    assert!(matches!(
        del,
        ChainItem::Delete {
            deletes_address: 0xD9,
            ..
        }
    ));
    let unl = DeleteLinkBuilder {
        link_add_address: None,
        base_address: Some(0xB9),
    }
    .build(&mut src);
    assert!(matches!(
        unl,
        ChainItem::Unlink {
            base_address: 0xB9,
            ..
        }
    ));
    assert!(matches!(
        OpenChainBuilder {
            prev_dna_hash: Some(0x11)
        }
        .build(&mut src),
        ChainItem::OpenChain { prev_dna_hash: 0x11 }
    ));
    assert!(matches!(
        CloseChainBuilder {
            new_dna_hash: Some(0x12)
        }
        .build(&mut src),
        ChainItem::CloseChain { new_dna_hash: 0x12 }
    ));
}
