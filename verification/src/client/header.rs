//! The interface a client kind's header presents to the dispatcher.

use vstd::prelude::*;

use crate::client::client_type::ClientType;
use crate::client::error::Kind;
use crate::client::height::Height;

verus! {

/// Consensus-state update information, as the multi-client dispatcher sees
/// it.
pub trait Header {
    /// The client kind this header belongs to.
    fn client_type(&self) -> ClientType;

    /// The height this header updates the client to.
    fn height(&self) -> Height;

    /// Performs basic validation of the header.
    fn validate_basic(&self) -> Result<(), Kind>;
}

} // verus!
