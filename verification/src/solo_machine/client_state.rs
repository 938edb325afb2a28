//! The persisted client state: the current sequence, the frozen marker and
//! the embedded consensus state.

use vstd::prelude::*;

use crate::client::client_type::ClientType;
use crate::client::error::Kind;
use crate::client::height::Height;
use crate::solo_machine::consensus_state::{ConsensusState, ConsensusStateView};

verus! {

/// The client state of a solo machine.  `sequence` and `consensus_state`
/// are replaced atomically by a successful header update;
/// `frozen_sequence` is set exactly once, by misbehaviour handling, and
/// never cleared (zero means not frozen).
#[derive(Debug, PartialEq, Eq)]
pub struct ClientState {
    /// The sequence the next header must claim.
    pub sequence: u64,
    /// The sequence at which the client was frozen, or zero.
    pub frozen_sequence: u64,
    /// The embedded trust anchor.
    pub consensus_state: ConsensusState,
    /// Whether updates after a proposal are allowed.
    pub allow_update_after_proposal: bool,
}

/// The mathematical shape of a `ClientState`.
pub struct ClientStateView {
    /// The sequence the next header must claim.
    pub sequence: u64,
    /// The sequence at which the client was frozen, or zero.
    pub frozen_sequence: u64,
    /// The shape of the embedded trust anchor.
    pub consensus_state: ConsensusStateView,
    /// Whether updates after a proposal are allowed.
    pub allow_update_after_proposal: bool,
}

impl View for ClientState {
    type V = ClientStateView;

    open spec fn view(&self) -> ClientStateView {
        ClientStateView {
            sequence: self.sequence,
            frozen_sequence: self.frozen_sequence,
            consensus_state: self.consensus_state@,
            allow_update_after_proposal: self.allow_update_after_proposal,
        }
    }
}

impl ClientState {
    /// Builds a client state from its parts.
    pub fn new(
        sequence: u64,
        frozen_sequence: u64,
        consensus_state: ConsensusState,
        allow_update_after_proposal: bool,
    ) -> (r: ClientState)
        ensures
            r.sequence == sequence,
            r.frozen_sequence == frozen_sequence,
            r.consensus_state == consensus_state,
            r.allow_update_after_proposal == allow_update_after_proposal,
    {
        ClientState { sequence, frozen_sequence, consensus_state, allow_update_after_proposal }
    }

    /// The solo-machine client kind.
    pub fn client_type(&self) -> (r: ClientType)
        ensures
            r == ClientType::SoloMachine,
    {
        ClientType::SoloMachine
    }

    /// The latest height: revision zero, at the current sequence.
    pub fn latest_height(&self) -> (r: Height)
        ensures
            r.revision_number == 0,
            r.revision_height == self.sequence,
    {
        Height { revision_number: 0, revision_height: self.sequence }
    }

    /// Whether the client has been frozen by misbehaviour handling.
    pub fn is_frozen(&self) -> (r: bool)
        ensures
            r == (self.frozen_sequence != 0),
    {
        self.frozen_sequence != 0
    }

    /// Deep copy: the copy has the same mathematical shape as the original.
    pub fn clone(&self) -> (r: ClientState)
        ensures
            r@ == self@,
            r.sequence == self.sequence,
            r.frozen_sequence == self.frozen_sequence,
            r.allow_update_after_proposal == self.allow_update_after_proposal,
    {
        ClientState {
            sequence: self.sequence,
            frozen_sequence: self.frozen_sequence,
            consensus_state: self.consensus_state.clone(),
            allow_update_after_proposal: self.allow_update_after_proposal,
        }
    }

    /// Basic validity: a nonzero sequence and a valid consensus state.
    pub open spec fn spec_valid_basic(&self) -> bool {
        &&& self.sequence != 0
        &&& self.consensus_state.spec_valid_basic()
    }

    /// Validates this client state: the sequence must be nonzero and the
    /// embedded consensus state must pass its own basic validation, whose
    /// error is reported unchanged.
    pub fn validate_basic(&self) -> (r: Result<(), Kind>)
        ensures
            (r is Ok) == self.spec_valid_basic(),
            self.sequence == 0 ==> r == Err::<(), Kind>(Kind::InvalidClientState),
            self.sequence != 0 && !self.consensus_state.spec_valid_basic() ==> r == Err::<
                (),
                Kind,
            >(Kind::InvalidConsensusState),
    {
        if self.sequence == 0 {
            return Err(Kind::InvalidClientState);
        }
        self.consensus_state.validate_basic()
    }
}

} // verus!
