//! A proposed update to the solo machine's trusted state: a new sequence
//! entry signed by the currently authorized key, rotating in a new key and
//! diversifier.

use vstd::prelude::*;

use crate::client::client_type::ClientType;
use crate::client::crypto::{AnyPublicKey, PubKeyView};
use crate::client::error::Kind;
use crate::client::height::Height;
use crate::solo_machine::consensus_state::spec_trimmed;
use crate::solo_machine::consensus_state::trim_string;

verus! {

/// A transient header value, fully consumed by the update function.
#[derive(Debug, PartialEq, Eq)]
pub struct Header {
    /// The sequence this header claims.
    pub sequence: u64,
    /// The signing time.
    pub timestamp: u64,
    /// The wire-encoded signature payload over the canonical sign bytes.
    pub signature: Vec<u8>,
    /// The key authorized once this header is accepted.
    pub new_public_key: AnyPublicKey,
    /// The diversifier in force once this header is accepted.
    pub new_diversifier: String,
}

/// The mathematical shape of a `Header`.
pub struct HeaderView {
    /// The sequence this header claims.
    pub sequence: u64,
    /// The signing time.
    pub timestamp: u64,
    /// The wire-encoded signature payload.
    pub signature: Seq<u8>,
    /// The shape of the key being rotated in.
    pub new_public_key: PubKeyView,
    /// The new diversifier's characters.
    pub new_diversifier: Seq<char>,
}

impl View for Header {
    type V = HeaderView;

    open spec fn view(&self) -> HeaderView {
        HeaderView {
            sequence: self.sequence,
            timestamp: self.timestamp,
            signature: self.signature@,
            new_public_key: self.new_public_key@,
            new_diversifier: self.new_diversifier@,
        }
    }
}

impl Header {
    /// Builds a header from its parts.
    pub fn new(
        sequence: u64,
        timestamp: u64,
        signature: Vec<u8>,
        new_public_key: AnyPublicKey,
        new_diversifier: String,
    ) -> (r: Header)
        ensures
            r.sequence == sequence,
            r.timestamp == timestamp,
            r.signature == signature,
            r.new_public_key == new_public_key,
            r.new_diversifier == new_diversifier,
    {
        Header { sequence, timestamp, signature, new_public_key, new_diversifier }
    }

    /// Basic validity: nonzero sequence and timestamp, a new diversifier
    /// that is non-empty after trimming, and a non-empty new key.
    pub open spec fn spec_valid_basic(&self) -> bool {
        &&& self.sequence != 0
        &&& self.timestamp != 0
        &&& spec_trimmed(self.new_diversifier@).len() != 0
        &&& !self.new_public_key.spec_is_empty()
    }
}

impl crate::client::header::Header for Header {
    /// The solo-machine client kind.
    fn client_type(&self) -> (r: ClientType)
        ensures
            r == ClientType::SoloMachine,
    {
        ClientType::SoloMachine
    }

    /// Revision zero, at this header's sequence.
    fn height(&self) -> (r: Height)
        ensures
            r.revision_number == 0,
            r.revision_height == self.sequence,
    {
        Height { revision_number: 0, revision_height: self.sequence }
    }

    /// Validates this header, as `spec_valid_basic` states.
    fn validate_basic(&self) -> (r: Result<(), Kind>)
        ensures
            (r is Ok) == self.spec_valid_basic(),
            r is Err ==> r->Err_0 == Kind::InvalidHeader,
    {
        if self.sequence == 0 {
            return Err(Kind::InvalidHeader);
        }
        if self.timestamp == 0 {
            return Err(Kind::InvalidHeader);
        }
        if trim_string(&self.new_diversifier).as_str().is_empty() {
            return Err(Kind::InvalidHeader);
        }
        if self.new_public_key.is_empty() {
            return Err(Kind::InvalidHeader);
        }
        Ok(())
    }
}

} // verus!
