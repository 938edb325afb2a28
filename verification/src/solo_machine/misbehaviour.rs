//! Equivocation evidence: two purportedly valid, differently signed
//! statements at one sequence.

use vstd::prelude::*;

use crate::client::client_type::ClientType;
use crate::client::error::Kind;
use crate::client::height::Height;
use crate::solo_machine::signature_and_data::{SignatureAndData, SignatureAndDataView};
use crate::wire::bytes_eq;

verus! {

/// Proof that a signer double-signed: two conflicting signed statements at
/// the same sequence.  Identifier syntax for `client_id` is the registry
/// layer's concern and is not validated here.
#[derive(Clone, Debug, PartialEq, Eq)]
pub struct Misbehaviour {
    /// The identifier of the client the evidence is against.
    pub client_id: String,
    /// The sequence at which both statements were signed.
    pub sequence: u64,
    /// The first signed statement.
    pub signature_one: SignatureAndData,
    /// The second signed statement.
    pub signature_two: SignatureAndData,
}

/// The mathematical shape of a `Misbehaviour`.
pub struct MisbehaviourView {
    /// The client identifier's characters.
    pub client_id: Seq<char>,
    /// The sequence at which both statements were signed.
    pub sequence: u64,
    /// The first signed statement's shape.
    pub signature_one: SignatureAndDataView,
    /// The second signed statement's shape.
    pub signature_two: SignatureAndDataView,
}

impl View for Misbehaviour {
    type V = MisbehaviourView;

    open spec fn view(&self) -> MisbehaviourView {
        MisbehaviourView {
            client_id: self.client_id@,
            sequence: self.sequence,
            signature_one: self.signature_one@,
            signature_two: self.signature_two@,
        }
    }
}

impl Misbehaviour {
    /// Basic validity: a nonzero sequence, two independently valid signed
    /// statements, which are not identical and whose signed bytes differ.
    /// Two identical statements, or two signatures over the same bytes,
    /// are not evidence of anything.
    pub open spec fn spec_valid_basic(&self) -> bool {
        &&& self.sequence != 0
        &&& self.signature_one.spec_valid_basic()
        &&& self.signature_two.spec_valid_basic()
        &&& self.signature_one@ != self.signature_two@
        &&& self.signature_one.data@ != self.signature_two.data@
    }
}

impl crate::client::misbehaviour::Misbehaviour for Misbehaviour {
    /// The solo-machine client kind.
    fn client_type(&self) -> (r: ClientType)
        ensures
            r == ClientType::SoloMachine,
    {
        ClientType::SoloMachine
    }

    /// Revision zero, at the equivocated sequence.
    fn height(&self) -> (r: Height)
        ensures
            r.revision_number == 0,
            r.revision_height == self.sequence,
    {
        Height::new(0, self.sequence)
    }

    /// Validates this evidence, as `spec_valid_basic` states.
    fn validate_basic(&self) -> (r: Result<(), Kind>)
        ensures
            (r is Ok) == self.spec_valid_basic(),
            r is Err ==> r->Err_0 == Kind::InvalidMisbehaviour,
    {
        if self.sequence == 0 {
            return Err(Kind::InvalidMisbehaviour);
        }
        if let Err(_) = self.signature_one.validate_basic() {
            return Err(Kind::InvalidMisbehaviour);
        }
        if let Err(_) = self.signature_two.validate_basic() {
            return Err(Kind::InvalidMisbehaviour);
        }
        if self.signature_one.same_as(&self.signature_two) {
            return Err(Kind::InvalidMisbehaviour);
        }
        if bytes_eq(&self.signature_one.data, &self.signature_two.data) {
            return Err(Kind::InvalidMisbehaviour);
        }
        Ok(())
    }
}

} // verus!
