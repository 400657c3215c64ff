//! Progress of the networking start-up, and the node identity of a peer.

use vstd::prelude::*;

use crate::ids::{be_value, u128_from_be_bytes, NodeId};

verus! {

/// How many times a starting node asks the DHT for the session's peers.
pub const DHT_DISCOVERY_ATTEMPTS: u8 = 3;

/// A step of the networking start-up, as reported to the editor.
#[derive(Clone, PartialEq, Eq, Debug)]
pub enum NetworkingInitStatus {
    CreatingEndpoint,
    EndpointReady,
    DiscoveringPeers { session_code: String, attempt: u8 },
    PeersFound { count: usize },
    NoPeersFound,
    PublishingToDHT,
    InitializingGossip,
}

/// What one DHT query for peers gave.
#[derive(Clone, Copy, PartialEq, Eq, Structural, Debug)]
pub enum DiscoveryResult {
    /// Some peers, this many.
    Found { count: usize },
    /// No peer.
    Empty,
    /// The query failed.
    Failed,
}

/// After DHT query number `attempt` gave `result`: whether discovery is over,
/// and the status to report. Peers end the discovery and are reported; the
/// last attempt ends it, reporting when it found nothing; a failure is only
/// logged.
pub fn after_discovery_attempt(attempt: u8, result: DiscoveryResult) -> (r: (bool, Option<NetworkingInitStatus>))
    ensures
        r.0 == (result is Found || attempt >= DHT_DISCOVERY_ATTEMPTS),
        r.1 == (match result {
            DiscoveryResult::Found { count } => Some(NetworkingInitStatus::PeersFound { count }),
            DiscoveryResult::Empty => if attempt == DHT_DISCOVERY_ATTEMPTS {
                Some(NetworkingInitStatus::NoPeersFound)
            } else {
                None
            },
            DiscoveryResult::Failed => None,
        }),
{
    match result {
        DiscoveryResult::Found { count } => (true, Some(NetworkingInitStatus::PeersFound { count })),
        DiscoveryResult::Empty => if attempt == DHT_DISCOVERY_ATTEMPTS {
            (true, Some(NetworkingInitStatus::NoPeersFound))
        } else {
            (attempt >= DHT_DISCOVERY_ATTEMPTS, None)
        },
        DiscoveryResult::Failed => (attempt >= DHT_DISCOVERY_ATTEMPTS, None),
    }
}

/// The node ID of a peer: its endpoint key's first 16 bytes, big-endian.
pub fn node_id_from_endpoint(endpoint_id: &[u8; 32]) -> (n: NodeId)
    ensures
        n == be_value(endpoint_id@.take(16)),
{
    let mut head = [0u8; 16];
    let mut i: usize = 0;
    while i < 16
        invariant
            i <= 16,
            endpoint_id@.len() == 32,
            head@.len() == 16,
            forall|k: int| 0 <= k < i ==> head@[k] == endpoint_id@[k],
        decreases 16 - i,
    {
        head[i] = endpoint_id[i];
        i = i + 1;
    }
    assert(head@ =~= endpoint_id@.take(16));
    u128_from_be_bytes(&head)
}

} // verus!
