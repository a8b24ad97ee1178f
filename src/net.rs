//! Messages that nodes exchange about peers and wallets.
use vstd::prelude::*;

verus! {

/// A node's identity, sent to register with a peer.
pub struct PeerRegistrationRequest {
    pub node_id: usize,
    pub public_key: Vec<u8>,
    pub address: String,
}

/// The identity of the node that accepted a registration.
pub struct PeerRegistrationResponse {
    pub node_id: usize,
    pub public_key: Vec<u8>,
    pub address: String,
}

pub struct WalletCreationRequest {
    pub initial_balance: i32,
}

/// A wallet that a node created, announced so that peers mirror it under the
/// same id.
pub struct WalletCreationResponse {
    pub wallet_id: String,
    pub initial_balance: i32,
}

} // verus!
