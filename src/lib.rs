//! Optimistic delta synchronisation of a keyed state between one server and
//! many clients: patches between two states, fingerprints of a state, and the
//! policy that chooses between a complete and an incremental update.
use vstd::prelude::*;

pub mod client;
pub mod concmap;
pub mod fingerprint;
pub mod server;
pub mod shared_map;
pub mod structs;

pub use concmap::ConcMap;
pub use structs::SimpleDiff;

verus! {

/// What the server sends to a client.
#[derive(Clone, Debug, PartialEq)]
pub enum ClientUpdate {
    /// A patch from the empty state to the server's state: the client starts over.
    Complete { complete_diff: SimpleDiff, newhash: u64 },
    /// A patch from the state the client is believed to hold; `oldhash` is the
    /// fingerprint that state must have.
    Diff { diff: SimpleDiff, newhash: u64, oldhash: u64 },
}

impl ClientUpdate {
    /// The fingerprint the client's state must have once the update is applied.
    pub open spec fn new_hash(&self) -> u64 {
        match self {
            ClientUpdate::Complete { newhash, .. } => *newhash,
            ClientUpdate::Diff { newhash, .. } => *newhash,
        }
    }
}

/// Why a client refused an update.
#[derive(Clone, Copy, Debug, PartialEq, Eq, Structural)]
pub enum UpdateError {
    /// The client's fingerprint is not the one the incremental update was built against.
    InvalidUpdateStartState,
    /// After applying the update the fingerprint is not the announced one.
    HashResultDiff,
}

/// A client's request for an update, with the fingerprint of what it holds.
#[derive(Clone, Copy, Debug, PartialEq, Eq, Structural)]
pub struct ClientUpdateRequest {
    pub id: u64,
    pub current_hash: u64,
}

} // verus!
