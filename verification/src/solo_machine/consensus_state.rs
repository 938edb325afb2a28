//! The persisted trust anchor: the currently authorized public key, the
//! diversifier scoping its signatures, and the time of the last update.

use vstd::prelude::*;

use crate::client::crypto::{AnyPublicKey, PubKeyView};
use crate::client::error::Kind;

verus! {

/// What `str::trim` keeps of a string: the characters with leading and
/// trailing whitespace removed.  The result depends on the characters
/// alone.
pub uninterp spec fn spec_trimmed(s: Seq<char>) -> Seq<char>;

/// Relies on `str::trim`: removing leading and trailing whitespace is a
/// deterministic function of the characters, named `spec_trimmed`.
#[verifier::external_body]
pub(crate) fn trim_string(s: &String) -> (r: String)
    ensures
        r@ == spec_trimmed(s@),
{
    s.trim().to_owned()
}

/// The consensus state of a solo machine: replaced wholesale by every
/// successful header update.
#[derive(Debug, PartialEq, Eq)]
pub struct ConsensusState {
    /// The public key authorized to sign the next header.
    pub public_key: AnyPublicKey,
    /// The string scoping signatures to this client instance.
    pub diversifier: String,
    /// The time of the last update.
    pub timestamp: u64,
}

/// The mathematical shape of a `ConsensusState`.
pub struct ConsensusStateView {
    /// The shape of the authorized public key.
    pub public_key: PubKeyView,
    /// The diversifier's characters.
    pub diversifier: Seq<char>,
    /// The time of the last update.
    pub timestamp: u64,
}

impl View for ConsensusState {
    type V = ConsensusStateView;

    open spec fn view(&self) -> ConsensusStateView {
        ConsensusStateView {
            public_key: self.public_key@,
            diversifier: self.diversifier@,
            timestamp: self.timestamp,
        }
    }
}

impl ConsensusState {
    /// Builds a consensus state from its parts.
    pub fn new(public_key: AnyPublicKey, diversifier: String, timestamp: u64) -> (r:
        ConsensusState)
        ensures
            r.public_key == public_key,
            r.diversifier == diversifier,
            r.timestamp == timestamp,
    {
        ConsensusState { public_key, diversifier, timestamp }
    }

    /// Basic validity: a nonzero timestamp, a diversifier that is non-empty
    /// after trimming, and a non-empty public key.
    pub open spec fn spec_valid_basic(&self) -> bool {
        &&& self.timestamp != 0
        &&& spec_trimmed(self.diversifier@).len() != 0
        &&& !self.public_key.spec_is_empty()
    }

    /// Validates this consensus state, as `spec_valid_basic` states.
    pub fn validate_basic(&self) -> (r: Result<(), Kind>)
        ensures
            (r is Ok) == self.spec_valid_basic(),
            r is Err ==> r->Err_0 == Kind::InvalidConsensusState,
    {
        if self.timestamp == 0 {
            return Err(Kind::InvalidConsensusState);
        }
        if trim_string(&self.diversifier).as_str().is_empty() {
            return Err(Kind::InvalidConsensusState);
        }
        if self.public_key.is_empty() {
            return Err(Kind::InvalidConsensusState);
        }
        Ok(())
    }

    /// Deep copy: the copy has the same mathematical shape as the original.
    pub fn clone(&self) -> (r: ConsensusState)
        ensures
            r@ == self@,
    {
        ConsensusState {
            public_key: self.public_key.clone(),
            diversifier: self.diversifier.clone(),
            timestamp: self.timestamp,
        }
    }
}

} // verus!
