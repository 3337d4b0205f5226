//! The default responder: what a simulated population answers to any wire
//! message a real node may send, so the node never stalls waiting.
//!
//! Queries it serves get protocol-appropriate empty responses; request
//! kinds the mock deliberately does not support get an explicit rejection,
//! never silence; pure notifications and responses get no reply.

use vstd::prelude::*;

use crate::data::AnyDhtHash;
use crate::gossip::GossipModule;

verus! {

/// A wire message addressed to a simulated agent, by kind.
#[derive(Clone, Copy, Debug, PartialEq, Eq, Structural)]
pub enum WireRequest {
    /// Direct content lookup.
    Get { hash: AnyDhtHash },
    /// Link lookup at a base address.
    GetLinks { base: u64 },
    /// Chain activity lookup for an agent.
    GetAgentActivity { agent: u64 },
    /// A validation receipt being delivered.
    ValidationReceipt,
    /// A remote call into application code.
    CallRemote,
    /// A metadata lookup.
    GetMeta,
    /// A validation package request.
    GetValidationPackage,
    /// A gossip sub-protocol message for a round module.
    Gossip { module: GossipModule },
    /// A response to an earlier call.
    CallResp,
    /// A metric exchange notification.
    MetricExchange,
    /// A peer lookup by identity.
    PeerGet { agent: u64 },
    /// A response to a peer lookup.
    PeerGetResp,
    /// A peer discovery query near a basis location.
    PeerQuery { basis: u32 },
    /// A response to a peer discovery query.
    PeerQueryResp,
    /// An announcement being pushed.
    PublishedAgentInfo,
    /// A failure notice from the peer.
    Failure,
}

/// What the default responder sends back.
#[derive(Clone, Copy, Debug, PartialEq, Eq, Structural)]
pub enum DefaultResponse {
    /// An empty content-ops response, for a get by content address.
    EmptyEntryOps,
    /// An empty record-ops response, for a get by header address.
    EmptyElementOps,
    /// An empty link-ops response.
    EmptyLinkOps,
    /// An empty, chain-status-empty activity response for the agent.
    EmptyActivity { agent: u64 },
    /// A bare acknowledgement: the receipt is accepted and discarded.
    EmptyAck,
    /// An explicit "not accepting this request" failure response.
    Reject,
    /// A gossip error message for the round module.
    GossipError { module: GossipModule },
    /// A "missing peer" failure response.
    MissingPeer,
    /// An empty peer list.
    EmptyPeerList,
    /// No reply at all: the message was a response or a notification.
    NoResponse,
}

/// The decision table: every wire message kind maps to exactly one default
/// answer.
pub open spec fn spec_default_response(msg: WireRequest) -> DefaultResponse {
    match msg {
        WireRequest::Get { hash } => match hash {
            AnyDhtHash::Entry(_) => DefaultResponse::EmptyEntryOps,
            AnyDhtHash::Header(_) => DefaultResponse::EmptyElementOps,
        },
        WireRequest::GetLinks { .. } => DefaultResponse::EmptyLinkOps,
        WireRequest::GetAgentActivity { agent } => DefaultResponse::EmptyActivity { agent },
        WireRequest::ValidationReceipt => DefaultResponse::EmptyAck,
        WireRequest::CallRemote => DefaultResponse::Reject,
        WireRequest::GetMeta => DefaultResponse::Reject,
        WireRequest::GetValidationPackage => DefaultResponse::Reject,
        WireRequest::Gossip { module } => DefaultResponse::GossipError { module },
        WireRequest::CallResp => DefaultResponse::NoResponse,
        WireRequest::MetricExchange => DefaultResponse::NoResponse,
        WireRequest::PeerGet { .. } => DefaultResponse::MissingPeer,
        WireRequest::PeerGetResp => DefaultResponse::NoResponse,
        WireRequest::PeerQuery { .. } => DefaultResponse::EmptyPeerList,
        WireRequest::PeerQueryResp => DefaultResponse::NoResponse,
        WireRequest::PublishedAgentInfo => DefaultResponse::NoResponse,
        WireRequest::Failure => DefaultResponse::NoResponse,
    }
}

/// Answer a wire message with the default response.
pub fn default_response(msg: &WireRequest) -> (r: DefaultResponse)
    ensures
        r == spec_default_response(*msg),
{
    match msg {
        WireRequest::Get { hash } => match hash {
            AnyDhtHash::Entry(_) => DefaultResponse::EmptyEntryOps,
            AnyDhtHash::Header(_) => DefaultResponse::EmptyElementOps,
        },
        WireRequest::GetLinks { .. } => DefaultResponse::EmptyLinkOps,
        WireRequest::GetAgentActivity { agent } => DefaultResponse::EmptyActivity {
            agent: *agent,
        },
        WireRequest::ValidationReceipt => DefaultResponse::EmptyAck,
        WireRequest::CallRemote => DefaultResponse::Reject,
        WireRequest::GetMeta => DefaultResponse::Reject,
        WireRequest::GetValidationPackage => DefaultResponse::Reject,
        WireRequest::Gossip { module } => DefaultResponse::GossipError { module: *module },
        WireRequest::CallResp => DefaultResponse::NoResponse,
        WireRequest::MetricExchange => DefaultResponse::NoResponse,
        WireRequest::PeerGet { .. } => DefaultResponse::MissingPeer,
        WireRequest::PeerGetResp => DefaultResponse::NoResponse,
        WireRequest::PeerQuery { .. } => DefaultResponse::EmptyPeerList,
        WireRequest::PeerQueryResp => DefaultResponse::NoResponse,
        WireRequest::PublishedAgentInfo => DefaultResponse::NoResponse,
        WireRequest::Failure => DefaultResponse::NoResponse,
    }
}

impl DefaultResponse {
    /// Whether the answer is an explicit failure sent back over the wire.
    pub open spec fn spec_is_failure(self) -> bool {
        match self {
            DefaultResponse::Reject => true,
            DefaultResponse::MissingPeer => true,
            DefaultResponse::GossipError { .. } => true,
            _ => false,
        }
    }

    /// The failure text an explicit failure carries on the wire.
    pub fn failure_text(&self) -> (r: Option<String>)
        ensures
            r is Some <==> self.spec_is_failure(),
            match *self {
                DefaultResponse::Reject => r->0@ == "Not accepting this request"@,
                DefaultResponse::MissingPeer => r->0@ == "Missing peer"@,
                DefaultResponse::GossipError { .. } => r->0@ == "Not accepting gossip"@,
                _ => true,
            },
    {
        match self {
            DefaultResponse::Reject => Some("Not accepting this request".to_owned()),
            DefaultResponse::MissingPeer => Some("Missing peer".to_owned()),
            DefaultResponse::GossipError { .. } => Some("Not accepting gossip".to_owned()),
            _ => None,
        }
    }
}

} // verus!
