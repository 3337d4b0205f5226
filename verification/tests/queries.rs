//! Query responder, ring math and default responder behavior.

use mock_network::agent_info::{
    half_length_for_coverage, ideal_coverage, ideal_target, GenerateAgentInfo, Settings,
    FULL_HALF_LENGTH,
};
use mock_network::bytes::ByteSource;
use mock_network::chain::{ChainItem, MockSigner};
use mock_network::data::{AnyDhtHash, PeerInfo, Visibility};
use mock_network::gossip::{Gossip, GossipEngine, GossipModule, GossipState};
use mock_network::hash::digest_bytes;
use mock_network::index::GeneratedData;
use mock_network::ops::OpType;
use mock_network::respond::{default_response, DefaultResponse, WireRequest};
use mock_network::ring::{shortest_arc_distance, ArcInterval, StorageArc};
use mock_network::synth::{synthesize_chain, Generate};

fn snapshot_with(
    authors_and_items: Vec<(u64, Vec<ChainItem>)>,
    arc_half_length: u32,
) -> GeneratedData {
    let mut signer = MockSigner::new();
    let mut chains = Vec::new();
    let mut keys = Vec::new();
    for (author, items) in authors_and_items {
        keys.push(author);
        let g = Generate {
            author,
            dna_hash: 0x7777,
            start_time: 2_000_000,
            membrane_proof: None,
            data: items,
        };
        chains.push(synthesize_chain(&mut signer, g).unwrap());
    }
    let infos = GenerateAgentInfo {
        agent_keys: keys,
        space: 0x7777,
        settings: Settings {
            arc_half_length,
            signed_at_ms: 1_000,
            expires_at_ms: 2_000,
            urls: Vec::new(),
        },
    }
    .make(&mut signer)
    .unwrap();
    GeneratedData::new(chains, infos)
}

fn update_at(loc: u64) -> ChainItem {
    ChainItem::Update {
        original_entry_address: loc,
        original_header_address: 0xAAAA_BBBB_CCCC_DDDD,
        bytes: b"updated".to_vec(),
        visibility: Visibility::Public,
    }
}

#[test]
fn ring_distance_wraps_both_ways() {
    assert_eq!(shortest_arc_distance(0, 0xFFFF_FFF5), 11);
    assert_eq!(shortest_arc_distance(0, 5), 5);
    assert_eq!(shortest_arc_distance(0, 0x8000), 0x8000);
    assert_eq!(shortest_arc_distance(10, 0xFFFF_FFFC), 14);
    assert_eq!(shortest_arc_distance(7, 7), 0);
    assert_eq!(shortest_arc_distance(0, 0x8000_0000), 0x8000_0000);
}

#[test]
fn interval_contains_handles_wraparound() {
    let iv = ArcInterval {
        start: 0xFFFF_FFF0,
        end: 0x10,
    };
    assert!(iv.contains_loc(0xFFFF_FFF5));
    assert!(iv.contains_loc(0x5));
    assert!(iv.contains_loc(0xFFFF_FFF0));
    assert!(iv.contains_loc(0x10));
    assert!(!iv.contains_loc(0x8000));
    assert!(!iv.contains_loc(0x11));
    let full = ArcInterval {
        start: 0,
        end: u32::MAX,
    };
    assert!(full.contains_loc(0));
    assert!(full.contains_loc(u32::MAX));
}

#[test]
fn storage_arc_agrees_with_its_interval() {
    let arc = StorageArc {
        center: 0,
        half_length: 0x10,
    };
    let iv = arc.to_interval();
    assert_eq!(iv.start, 0xFFFF_FFF0);
    assert_eq!(iv.end, 0x10);
    for loc in [0u32, 5, 0x10, 0xFFFF_FFF0, 0xFFFF_FFF5, 0x11, 0x8000] {
        assert_eq!(arc.contains(loc), iv.contains_loc(loc));
    }
}

#[test]
fn op_hash_query_respects_wrapping_arc() {
    let snap = snapshot_with(
        vec![(
            4,
            vec![
                update_at(0xFFFF_FFF5),
                update_at(0x5),
                update_at(0x8000),
            ],
        )],
        FULL_HALF_LENGTH,
    );
    let op_at = |loc: u64| {
        snap.ops_by_loc
            .iter()
            .find(|o| o.op_type == OpType::RegisterUpdatedContent && o.basis == loc)
            .unwrap()
            .op_hash
    };
    let inside_low = op_at(0xFFFF_FFF5);
    let inside_high = op_at(0x5);
    let outside = op_at(0x8000);
    let intervals = vec![ArcInterval {
        start: 0xFFFF_FFF0,
        end: 0x10,
    }];
    let (hashes, window) = snap.op_hash_query(4, &intervals, 0, u64::MAX).unwrap();
    assert_eq!(window, (0, u64::MAX));
    assert!(hashes.contains(&inside_low));
    assert!(hashes.contains(&inside_high));
    assert!(!hashes.contains(&outside));
    // Nothing outside the interval leaks through.
    for h in &hashes {
        let op = snap.ops_by_loc.iter().find(|o| o.op_hash == *h).unwrap();
        let loc = (op.basis % 0x1_0000_0000) as u32;
        assert!(loc >= 0xFFFF_FFF0 || loc <= 0x10);
    }
    // A window excluding every record timestamp yields no data.
    assert!(snap.op_hash_query(4, &intervals, 0, 1).is_none());
}

#[test]
fn peer_get_requires_arc_containment_or_override() {
    // Centers are the low bits of the agent keys: 1000, 1050 and 500_000.
    let snap = snapshot_with(vec![(1000, vec![]), (1050, vec![]), (500_000, vec![])], 100);
    // 1000's arc spans [900, 1100]: it contains 1050 but not 500_000.
    let hit = snap.peer_get(1000, 1050, &Vec::new()).unwrap();
    assert_eq!(hit.agent, 1050);
    assert!(snap.peer_get(1000, 500_000, &Vec::new()).is_none());
    assert!(snap.peer_get(1000, 9999, &Vec::new()).is_none());
    // A newly learned peer overrides the containment rule.
    let learned = vec![PeerInfo {
        agent: 500_000,
        space: 0x7777,
        storage_arc: StorageArc {
            center: 500_000,
            half_length: 5,
        },
        urls: Vec::new(),
        signed_at_ms: 1,
        expires_at_ms: 2,
        signature: 0,
    }];
    let over = snap.peer_get(1000, 500_000, &learned).unwrap();
    assert_eq!(over.agent, 500_000);
    assert_eq!(over.storage_arc.half_length, 5);
}

#[test]
fn peer_query_orders_by_ring_distance() {
    let snap = snapshot_with(
        vec![(100, vec![]), (200, vec![]), (300, vec![]), (400, vec![])],
        FULL_HALF_LENGTH,
    );
    let peers = snap.peer_query(100, 310);
    assert_eq!(peers.len(), 4);
    assert_eq!(peers[0].agent, 300);
    assert_eq!(peers[1].agent, 400);
    assert_eq!(peers[2].agent, 200);
    assert_eq!(peers[3].agent, 100);
}

#[test]
fn peer_query_truncates_to_eight() {
    let mut agents = Vec::new();
    for k in 0..12u64 {
        agents.push((1000 + k, Vec::new()));
    }
    let snap = snapshot_with(agents, FULL_HALF_LENGTH);
    let peers = snap.peer_query(1000, 0);
    assert_eq!(peers.len(), 8);
}

#[test]
fn ideal_target_halves_the_ring_for_a_hundred_peers() {
    assert_eq!(ideal_coverage(100), 500_000);
    let arc = ideal_target(100, StorageArc::full(7));
    assert_eq!(arc.center, 7);
    assert_eq!(arc.half_length, 0x4000_0000);
    // Small populations clamp to full coverage.
    assert_eq!(ideal_coverage(10), 1_000_000);
    assert_eq!(ideal_target(10, StorageArc::full(0)).half_length, 0x8000_0000);
    assert_eq!(ideal_coverage(1), 1_000_000);
}

#[test]
fn get_resolves_content_and_header_addresses() {
    let body = b"looked up";
    let snap = snapshot_with(
        vec![(
            6,
            vec![ChainItem::Entry {
                bytes: body.to_vec(),
                visibility: Visibility::Public,
            }],
        )],
        FULL_HALF_LENGTH,
    );
    let entry_hash = digest_bytes(&body.to_vec());
    let by_entry = snap.get(6, AnyDhtHash::Entry(entry_hash)).unwrap();
    assert_eq!(by_entry.entry.as_deref(), Some(body.as_slice()));
    let header_hash = snap.data[0].records[3].header_hash;
    let by_header = snap.get(6, AnyDhtHash::Header(header_hash)).unwrap();
    assert_eq!(by_header.header.timestamp, 2_000_003);
    assert!(snap.get(6, AnyDhtHash::Entry(entry_hash ^ 1)).is_none());
}

#[test]
fn get_links_filters_by_base_and_tag_prefix() {
    let snap = snapshot_with(
        vec![(
            8,
            vec![
                ChainItem::Link {
                    base_address: 0xB1,
                    target_address: 0xC1,
                    zome_id: 0,
                    tag: b"alpha".to_vec(),
                },
                ChainItem::Link {
                    base_address: 0xB1,
                    target_address: 0xC2,
                    zome_id: 0,
                    tag: b"beta".to_vec(),
                },
                ChainItem::Link {
                    base_address: 0xB2,
                    target_address: 0xC3,
                    zome_id: 0,
                    tag: b"alpine".to_vec(),
                },
            ],
        )],
        FULL_HALF_LENGTH,
    );
    let all_b1 = snap.get_links(8, 0xB1, None);
    assert_eq!(all_b1.len(), 2);
    assert_eq!(all_b1[0].target_address, 0xC1);
    assert_eq!(all_b1[1].target_address, 0xC2);
    let prefix = b"al".to_vec();
    let al_b1 = snap.get_links(8, 0xB1, Some(&prefix));
    assert_eq!(al_b1.len(), 1);
    assert_eq!(al_b1[0].target_address, 0xC1);
    assert_eq!(al_b1[0].tag.as_slice(), b"alpha");
    let al_b2 = snap.get_links(8, 0xB2, Some(&prefix));
    assert_eq!(al_b2.len(), 1);
    assert_eq!(al_b2[0].target_address, 0xC3);
    assert!(snap.get_links(8, 0xB3, None).is_empty());
}

#[test]
fn query_agents_applies_filters_and_ordering() {
    let snap = snapshot_with(
        vec![(100, vec![]), (200, vec![]), (300, vec![])],
        FULL_HALF_LENGTH,
    );
    let all = snap.query_agents(100, None, None, None, None);
    assert_eq!(all.len(), 3);
    let only = vec![200u64];
    let filtered = snap.query_agents(100, Some(&only), None, None, None);
    assert_eq!(filtered.len(), 1);
    assert_eq!(filtered[0].agent, 200);
    // Signing-time window outside every announcement keeps nothing.
    let none = snap.query_agents(100, None, Some((5_000, 6_000)), None, None);
    assert!(none.is_empty());
    // An arc set far from every center keeps nothing.
    let far = vec![ArcInterval {
        start: 0x1000_0000,
        end: 0x2000_0000,
    }];
    let off = snap.query_agents(100, None, None, Some(&far), None);
    assert!(off.is_empty());
    // Nearness ordering from 290: 300 first, then 200, then 100.
    let near = snap.query_agents(100, None, None, None, Some(290));
    assert_eq!(near.len(), 3);
    assert_eq!(near[0].agent, 300);
    assert_eq!(near[1].agent, 200);
    assert_eq!(near[2].agent, 100);
}

#[test]
fn default_responses_match_the_protocol_table() {
    assert_eq!(
        default_response(&WireRequest::Get {
            hash: AnyDhtHash::Entry(1)
        }),
        DefaultResponse::EmptyEntryOps
    );
    assert_eq!(
        default_response(&WireRequest::Get {
            hash: AnyDhtHash::Header(1)
        }),
        DefaultResponse::EmptyElementOps
    );
    assert_eq!(
        default_response(&WireRequest::GetLinks { base: 2 }),
        DefaultResponse::EmptyLinkOps
    );
    assert_eq!(
        default_response(&WireRequest::GetAgentActivity { agent: 3 }),
        DefaultResponse::EmptyActivity { agent: 3 }
    );
    assert_eq!(
        default_response(&WireRequest::ValidationReceipt),
        DefaultResponse::EmptyAck
    );
    for rejected in [
        WireRequest::CallRemote,
        WireRequest::GetMeta,
        WireRequest::GetValidationPackage,
    ] {
        let r = default_response(&rejected);
        assert_eq!(r, DefaultResponse::Reject);
        assert_eq!(
            r.failure_text().as_deref(),
            Some("Not accepting this request")
        );
    }
    let g = default_response(&WireRequest::Gossip {
        module: GossipModule::ShardedRecent,
    });
    assert_eq!(
        g,
        DefaultResponse::GossipError {
            module: GossipModule::ShardedRecent
        }
    );
    assert_eq!(g.failure_text().as_deref(), Some("Not accepting gossip"));
    let pg = default_response(&WireRequest::PeerGet { agent: 4 });
    assert_eq!(pg, DefaultResponse::MissingPeer);
    assert_eq!(pg.failure_text().as_deref(), Some("Missing peer"));
    assert_eq!(
        default_response(&WireRequest::PeerQuery { basis: 5 }),
        DefaultResponse::EmptyPeerList
    );
    for silent in [
        WireRequest::CallResp,
        WireRequest::MetricExchange,
        WireRequest::PeerGetResp,
        WireRequest::PeerQueryResp,
        WireRequest::PublishedAgentInfo,
        WireRequest::Failure,
    ] {
        let r = default_response(&silent);
        assert_eq!(r, DefaultResponse::NoResponse);
        assert!(r.failure_text().is_none());
    }
}

struct TaggingEngine {
    tag: u8,
}

impl GossipEngine for TaggingEngine {
    fn process_incoming(&mut self, from: u64, msg: Vec<u8>) -> Result<Vec<Vec<u8>>, u32> {
        let mut reply = msg;
        reply.push(self.tag);
        reply.push(from as u8);
        Ok(vec![reply])
    }
}

#[test]
fn gossip_dispatch_picks_the_addressed_module() {
    let mut driver = Gossip::new(vec![
        (
            10,
            GossipState {
                recent: TaggingEngine { tag: 1 },
                historical: TaggingEngine { tag: 2 },
            },
        ),
        (
            11,
            GossipState {
                recent: TaggingEngine { tag: 3 },
                historical: TaggingEngine { tag: 4 },
            },
        ),
    ]);
    let out = driver
        .process_msg(77, 10, GossipModule::ShardedRecent, vec![9])
        .unwrap();
    assert_eq!(out, vec![vec![9, 1, 77]]);
    let out = driver
        .process_msg(78, 11, GossipModule::ShardedHistorical, vec![8])
        .unwrap();
    assert_eq!(out, vec![vec![8, 4, 78]]);
    assert!(driver
        .process_msg(79, 12, GossipModule::ShardedRecent, vec![7])
        .is_err());
}

#[test]
fn byte_source_is_seeded_and_fills_exact_lengths() {
    let mut a = ByteSource::with_seed(7);
    let mut b = ByteSource::with_seed(7);
    let xs = a.next_bytes(64);
    let ys = b.next_bytes(64);
    assert_eq!(xs.len(), 64);
    assert_eq!(xs, ys);
    // The generator actually wrote into the buffer.
    assert!(xs.iter().any(|&v| v != 0));
    let mut c = ByteSource::with_seed(8);
    assert_ne!(c.next_bytes(64), xs);
    assert_eq!(a.next_bytes(0).len(), 0);
    assert_eq!(a.next_bytes(3).len(), 3);
}

#[test]
fn byte_source_emits_the_wyrand_word_stream() {
    // Exact values of the word function, computed from its formula.
    let mut src = ByteSource::with_seed(7);
    let first = src.next_u64();
    let second = src.next_u64();
    assert_eq!(first, 0xc5fc_598e_707e_7291);
    assert_eq!(second, 0x38f4_d74b_451e_8c20);
    // The same words the ecosystem's generator draws from the same seed.
    let mut reference = fastrand::Rng::with_seed(7);
    assert_eq!(reference.u64(..), first);
    assert_eq!(reference.u64(..), second);
    // Bytes are the words' little-endian serialization.
    let mut again = ByteSource::with_seed(7);
    let bytes = again.next_bytes(12);
    assert_eq!(&bytes[..8], &first.to_le_bytes());
    assert_eq!(&bytes[8..], &second.to_le_bytes()[..4]);
}

#[test]
fn digest_matches_the_fold_formula() {
    assert_eq!(digest_bytes(&vec![1, 2, 3]), 0xd0aa_6218_672c_f5ab);
    assert_eq!(digest_bytes(&Vec::new()), 0xcbf2_9ce4_8422_2325);
    let mut h: u64 = 0xcbf2_9ce4_8422_2325;
    for b in [5u8, 6, 7, 8] {
        h = (h ^ b as u64).wrapping_mul(0x100_0000_01b3);
    }
    assert_eq!(digest_bytes(&vec![5, 6, 7, 8]), h);
}

#[test]
fn data_requests_accept_and_discard() {
    let snap = snapshot_with(vec![(42, vec![])], FULL_HALF_LENGTH);
    let requests = mock_network::gossip::DataRequests::new(snap);
    let pushed = vec![vec![1u8, 2], vec![3u8]];
    assert_eq!(requests.gossip(0x7777, 42, &pushed), 2);
    let known = PeerInfo {
        agent: 42,
        space: 0x7777,
        storage_arc: StorageArc {
            center: 42,
            half_length: 1,
        },
        urls: Vec::new(),
        signed_at_ms: 0,
        expires_at_ms: 1,
        signature: 0,
    };
    assert!(requests.put_agent_info(&known));
    let unknown = PeerInfo {
        agent: 43,
        ..known
    };
    assert!(!requests.put_agent_info(&unknown));
}

#[test]
fn directory_defaults_and_placeholder_address() {
    let settings = Settings::standard(1_000);
    assert_eq!(settings.arc_half_length, u32::MAX / 2);
    assert_eq!(settings.signed_at_ms, 1_000);
    assert_eq!(settings.expires_at_ms, 3_601_000);
    assert!(settings.urls.is_empty());
    let mut signer = MockSigner::new();
    let infos = GenerateAgentInfo {
        agent_keys: vec![77],
        space: 9,
        settings,
    }
    .make(&mut signer)
    .unwrap();
    assert_eq!(infos.len(), 1);
    assert_eq!(infos[0].agent, 77);
    assert_eq!(infos[0].storage_arc.center, 77);
    assert_eq!(infos[0].urls, vec!["kitsune-quic://localhost:5778".to_string()]);
    // A bound address overrides the placeholder.
    let bound = Settings {
        arc_half_length: 1,
        signed_at_ms: 0,
        expires_at_ms: 1,
        urls: vec![(78, "kitsune-quic://10.0.0.5:4242".to_string())],
    };
    let infos = GenerateAgentInfo {
        agent_keys: vec![78],
        space: 9,
        settings: bound,
    }
    .make(&mut signer)
    .unwrap();
    assert_eq!(infos[0].urls, vec!["kitsune-quic://10.0.0.5:4242".to_string()]);
}

#[test]
fn coverage_scales_into_half_lengths() {
    assert_eq!(half_length_for_coverage(1_000_000), 0x8000_0000);
    assert_eq!(half_length_for_coverage(2_000_000), 0x8000_0000);
    assert_eq!(half_length_for_coverage(500_000), 0x4000_0000);
    assert_eq!(half_length_for_coverage(0), 0);
}

#[test]
fn query_agents_window_is_inclusive() {
    let snap = snapshot_with(vec![(100, vec![]), (200, vec![])], FULL_HALF_LENGTH);
    // Every announcement is signed at exactly 1_000 ms.
    let kept = snap.query_agents(100, None, Some((1_000, 1_000)), None, None);
    assert_eq!(kept.len(), 2);
    let before = snap.query_agents(100, None, Some((0, 999)), None, None);
    assert!(before.is_empty());
}

#[test]
fn empty_tag_prefix_matches_every_link() {
    let snap = snapshot_with(
        vec![(8, vec![ChainItem::Link {
            base_address: 0xB1,
            target_address: 0xC1,
            zome_id: 3,
            tag: b"anything".to_vec(),
        }])],
        FULL_HALF_LENGTH,
    );
    let empty = Vec::new();
    let links = snap.get_links(8, 0xB1, Some(&empty));
    assert_eq!(links.len(), 1);
    assert_eq!(links[0].zome_id, 3);
    assert_eq!(links[0].timestamp, 2_000_003);
}

#[test]
fn peer_visibility_follows_the_agents_own_arc() {
    // Agent 1000 claims [900, 1100]; agent 2000 claims the whole ring;
    // agent 5000 claims [4990, 5010].
    let mut signer = MockSigner::new();
    let mut chains = Vec::new();
    let mut infos = Vec::new();
    for (author, half) in [(1000u64, 100u32), (2000, FULL_HALF_LENGTH), (5000, 10)] {
        let g = Generate {
            author,
            dna_hash: 0x7777,
            start_time: 2_000_000,
            membrane_proof: None,
            data: vec![],
        };
        chains.push(synthesize_chain(&mut signer, g).unwrap());
        let batch = GenerateAgentInfo {
            agent_keys: vec![author],
            space: 0x7777,
            settings: Settings {
                arc_half_length: half,
                signed_at_ms: 1_000,
                expires_at_ms: 2_000,
                urls: Vec::new(),
            },
        };
        infos.push(batch.make(&mut signer).unwrap().pop().unwrap());
    }
    let snap = GeneratedData::new(chains, infos);
    // The narrow agent holds only itself: the announcements *its* arc
    // contains, not those whose arcs contain it.
    assert_eq!(snap.all_held_agents[0], vec![0]);
    // The full-arc agent holds every announcement.
    assert_eq!(snap.all_held_agents[1], vec![0, 1, 2]);
    assert_eq!(snap.all_held_agents[2], vec![2]);
    // peer_query answers from the same visibility set.
    assert_eq!(snap.peer_query(1000, 0).len(), 1);
    assert_eq!(snap.peer_query(2000, 0).len(), 3);
}
