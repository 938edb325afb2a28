//! The interface a client kind's misbehaviour evidence presents to the
//! dispatcher.

use vstd::prelude::*;

use crate::client::client_type::ClientType;
use crate::client::error::Kind;
use crate::client::height::Height;

verus! {

/// Evidence of consensus-state misbehaviour, as the multi-client dispatcher
/// sees it.
pub trait Misbehaviour {
    /// The client kind this evidence belongs to.
    fn client_type(&self) -> ClientType;

    /// The height at which the misbehaviour occurred.
    fn height(&self) -> Height;

    /// Performs basic validation of the evidence.
    fn validate_basic(&self) -> Result<(), Kind>;
}

} // verus!
