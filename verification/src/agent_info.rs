//! The agent directory builder: one signed, time-bounded peer announcement
//! per simulated agent, with an arc width chosen for a target redundancy.
//!
//! Coverage is a fraction of the ring expressed in millionths, so the
//! redundancy arithmetic stays exact. A coverage of one million is the
//! whole ring; the half-length an arc gets for a coverage scales linearly
//! up to the full half-length.

use vstd::prelude::*;

use crate::chain::{GenError, SignOracle};
use crate::data::PeerInfo;
use crate::hash::spec_loc_of;
use crate::ring::StorageArc;

verus! {

/// One million: the coverage value meaning the whole ring.
pub const COVERAGE_SCALE: u64 = 1_000_000;

/// The half-length covering the whole ring: half the ring's size, since no
/// location is further from the center than that.
pub const FULL_HALF_LENGTH: u32 = 0x8000_0000;

/// The default arc half-length a directory run claims when none is set:
/// `u32::MAX / 2`, an arc spanning the whole ring save the center's
/// antipode.
pub const DEFAULT_HALF_LENGTH: u32 = 0x7FFF_FFFF;

/// The target redundancy the directory aims for: how many agents should
/// hold each location.
pub const TARGET_REDUNDANCY: u64 = 50;

/// The half-length an arc gets for a coverage in millionths, clamped to
/// the whole ring.
pub open spec fn spec_half_length_for_coverage(cov: u64) -> u32 {
    (((if cov < 1_000_000 {
        cov
    } else {
        1_000_000
    }) * 0x8000_0000) / 1_000_000) as u32
}

/// Convert a coverage in millionths into an arc half-length.
pub fn half_length_for_coverage(cov: u64) -> (r: u32)
    ensures
        r == spec_half_length_for_coverage(cov),
{
    let clamped = if cov < COVERAGE_SCALE {
        cov
    } else {
        COVERAGE_SCALE
    };
    proof {
        assert(clamped <= 1_000_000);
        assert(clamped * 0x8000_0000 <= 1_000_000 * 0x8000_0000) by (nonlinear_arith)
            requires clamped <= 1_000_000;
    }
    ((clamped * (FULL_HALF_LENGTH as u64)) / COVERAGE_SCALE) as u32
}

/// The coverage aiming for the target redundancy over a population:
/// `TARGET_REDUNDANCY / total_peers` of the ring, clamped to the whole
/// ring.
pub open spec fn spec_ideal_coverage(total_peers: int) -> u64 {
    if (50 * 1_000_000) as int / total_peers < 1_000_000 {
        ((50 * 1_000_000) as int / total_peers) as u64
    } else {
        1_000_000
    }
}

/// Compute the coverage aiming for the target redundancy; with no peers
/// there is no meaningful coverage, so the population must not be empty.
pub fn ideal_coverage(total_peers: usize) -> (r: u64)
    requires
        total_peers > 0,
    ensures
        r == spec_ideal_coverage(total_peers as int),
        r <= COVERAGE_SCALE,
{
    let raw = (TARGET_REDUNDANCY * COVERAGE_SCALE) / (total_peers as u64);
    if raw < COVERAGE_SCALE {
        raw
    } else {
        COVERAGE_SCALE
    }
}

/// Shrink an arc to the coverage aiming for the target redundancy over
/// `total_peers` agents, keeping its center.
pub fn ideal_target(total_peers: usize, arc: StorageArc) -> (r: StorageArc)
    requires
        total_peers > 0,
    ensures
        r.center == arc.center,
        r.half_length == spec_half_length_for_coverage(spec_ideal_coverage(total_peers as int)),
{
    let cov = ideal_coverage(total_peers);
    StorageArc { center: arc.center, half_length: half_length_for_coverage(cov) }
}

/// Settings of a directory run: the arc half-length every announcement
/// claims, the signing and expiry times, and per-agent reachable
/// addresses for agents bound to a real transport endpoint.
pub struct Settings {
    pub arc_half_length: u32,
    pub signed_at_ms: u64,
    pub expires_at_ms: u64,
    pub urls: Vec<(u64, String)>,
}

impl Settings {
    /// The defaults: an arc with the default half-length, the given
    /// signing time, expiry an hour later, no bound addresses.
    pub fn standard(signed_at_ms: u64) -> (r: Settings)
        requires
            signed_at_ms + 3_600_000 <= u64::MAX,
        ensures
            r.arc_half_length == DEFAULT_HALF_LENGTH,
            r.signed_at_ms == signed_at_ms,
            r.expires_at_ms == signed_at_ms + 3_600_000,
            r.urls@.len() == 0,
    {
        Settings {
            arc_half_length: DEFAULT_HALF_LENGTH,
            signed_at_ms,
            expires_at_ms: signed_at_ms + 3_600_000,
            urls: Vec::new(),
        }
    }
}

/// Whether a bound address is listed for the agent.
pub open spec fn has_url(urls: Seq<(u64, String)>, agent: u64) -> bool {
    exists|i: int| 0 <= i < urls.len() && (#[trigger] urls[i]).0 == agent
}

/// The first bound address listed for the agent.
pub open spec fn spec_url_of(urls: Seq<(u64, String)>, agent: u64) -> Seq<char> {
    urls[choose|i: int|
        0 <= i < urls.len() && (#[trigger] urls[i]).0 == agent && forall|j: int|
            0 <= j < i ==> (#[trigger] urls[j]).0 != agent].1@
}

/// Find the first bound address listed for the agent.
fn find_url(urls: &Vec<(u64, String)>, agent: u64) -> (r: Option<String>)
    ensures
        match r {
            Some(u) => has_url(urls@, agent) && u@ == spec_url_of(urls@, agent),
            None => !has_url(urls@, agent),
        },
{
    let mut i: usize = 0;
    while i < urls.len()
        invariant
            i <= urls@.len(),
            forall|j: int| 0 <= j < i ==> (#[trigger] urls@[j]).0 != agent,
        decreases urls@.len() - i,
    {
        if urls[i].0 == agent {
            proof {
                let c = choose|c: int|
                    0 <= c < urls@.len() && (#[trigger] urls@[c]).0 == agent && forall|j: int|
                        0 <= j < c ==> (#[trigger] urls@[j]).0 != agent;
                assert(urls@[i as int].0 == agent);
                if !(0 <= c < urls@.len() && urls@[c].0 == agent && forall|j: int|
                    0 <= j < c ==> (#[trigger] urls@[j]).0 != agent) {
                    assert(false);
                }
                if c < i {
                    assert(urls@[c].0 != agent);
                } else if i < c {
                    assert(urls@[i as int].0 != agent);
                }
            }
            return Some(urls[i].1.clone());
        }
        i = i + 1;
    }
    None
}

/// The placeholder ephemeral address used for agents without a bound
/// transport endpoint.
pub fn placeholder_url() -> (r: String)
    ensures
        r@ == "kitsune-quic://localhost:5778"@,
{
    "kitsune-quic://localhost:5778".to_owned()
}

/// The directory builder: produce one signed announcement per agent key.
pub struct GenerateAgentInfo {
    pub agent_keys: Vec<u64>,
    pub space: u64,
    pub settings: Settings,
}

impl GenerateAgentInfo {
    /// Build the announcements: each agent's arc is centered at its key's
    /// ring location with the configured half-length, carries the agent's
    /// bound address or the placeholder, the configured times, and a
    /// signature from the oracle. Oracle failure aborts the whole run.
    pub fn make<S: SignOracle>(self, signer: &mut S) -> (r: Result<Vec<PeerInfo>, GenError>)
        ensures
            r is Ok ==> {
                let infos = r->Ok_0@;
                &&& infos.len() == self.agent_keys@.len()
                &&& forall|i: int|
                    0 <= i < infos.len() ==> {
                        let p = #[trigger] infos[i];
                        &&& p.agent == self.agent_keys@[i]
                        &&& p.space == self.space
                        &&& p.storage_arc == (StorageArc {
                            center: spec_loc_of(self.agent_keys@[i]),
                            half_length: self.settings.arc_half_length,
                        })
                        &&& p.signed_at_ms == self.settings.signed_at_ms
                        &&& p.expires_at_ms == self.settings.expires_at_ms
                        &&& p.urls@.len() == 1
                        &&& p.urls@[0]@ == if has_url(self.settings.urls@, self.agent_keys@[i]) {
                            spec_url_of(self.settings.urls@, self.agent_keys@[i])
                        } else {
                            "kitsune-quic://localhost:5778"@
                        }
                    }
            },
    {
        let mut out: Vec<PeerInfo> = Vec::new();
        let mut i: usize = 0;
        while i < self.agent_keys.len()
            invariant
                i <= self.agent_keys@.len(),
                out@.len() == i,
                forall|m: int|
                    0 <= m < i ==> {
                        let p = #[trigger] out@[m];
                        &&& p.agent == self.agent_keys@[m]
                        &&& p.space == self.space
                        &&& p.storage_arc == (StorageArc {
                            center: spec_loc_of(self.agent_keys@[m]),
                            half_length: self.settings.arc_half_length,
                        })
                        &&& p.signed_at_ms == self.settings.signed_at_ms
                        &&& p.expires_at_ms == self.settings.expires_at_ms
                        &&& p.urls@.len() == 1
                        &&& p.urls@[0]@ == if has_url(self.settings.urls@, self.agent_keys@[m]) {
                            spec_url_of(self.settings.urls@, self.agent_keys@[m])
                        } else {
                            "kitsune-quic://localhost:5778"@
                        }
                    },
            decreases self.agent_keys@.len() - i,
        {
            let agent = self.agent_keys[i];
            let url = match find_url(&self.settings.urls, agent) {
                Some(u) => u,
                None => placeholder_url(),
            };
            let sig = signer.sign(agent, self.space)?;
            let mut urls: Vec<String> = Vec::new();
            urls.push(url);
            out.push(PeerInfo {
                agent,
                space: self.space,
                storage_arc: StorageArc {
                    center: crate::hash::loc_of(agent),
                    half_length: self.settings.arc_half_length,
                },
                urls,
                signed_at_ms: self.settings.signed_at_ms,
                expires_at_ms: self.settings.expires_at_ms,
                signature: sig,
            });
            i = i + 1;
        }
        Ok(out)
    }
}

} // verus!
