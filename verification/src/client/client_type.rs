//! The closed set of known light-client kinds.

use vstd::prelude::*;

verus! {

/// Which light-client implementation a value belongs to.  A dispatcher
/// routes verification calls by this tag; the solo-machine client is the
/// kind this crate implements.
#[derive(Clone, Copy, Debug, PartialEq, Eq, Structural)]
pub enum ClientType {
    /// A single-signer (or multi-signer) light client.
    SoloMachine,
    /// A BFT-consensus, Merkle-proof-based light client.
    Tendermint,
}

} // verus!
