//! Error kinds shared by the client substrate and the solo-machine client.
//!
//! Every kind is distinct and is never silently coalesced: decode and shape
//! errors are rejected before any cryptographic work, semantic validation
//! errors mark structurally well-formed input that violates an invariant,
//! and cryptographic errors distinguish a malformed key, malformed signature
//! data, an algorithm mismatch and a genuine verification failure.

use vstd::prelude::*;

verus! {

/// The error kinds this crate reports.
#[derive(Clone, Copy, Debug, PartialEq, Eq, Structural)]
pub enum Kind {
    /// Malformed wire bytes for a client state.
    InvalidRawClientState,
    /// Malformed wire bytes for a consensus state.
    InvalidRawConsensusState,
    /// Malformed wire bytes for a header.
    InvalidRawHeader,
    /// Malformed wire bytes for the header data inside a signing payload.
    InvalidRawHeaderData,
    /// Malformed wire bytes for a misbehaviour report.
    InvalidRawMisbehaviour,
    /// Malformed wire bytes for a public key.
    InvalidRawPubKey,
    /// A typed-envelope tag naming no known public-key algorithm.
    UnknownPubKeyType,
    /// A client state failing basic validation.
    InvalidClientState,
    /// A consensus state failing basic validation.
    InvalidConsensusState,
    /// A header failing basic validation.
    InvalidHeader,
    /// A misbehaviour report failing basic validation.
    InvalidMisbehaviour,
    /// A signature-and-data record failing basic validation.
    InvalidSignatureAndData,
    /// A public key the scheme cannot decode.
    InvalidPubKey,
    /// Signature data the scheme cannot decode, or of the wrong shape.
    InvalidSignatureData,
    /// A public-key variant paired with a signature payload of another
    /// variant.
    InvalidSignatureType,
    /// A well-formed signature that does not verify under the key.
    SignatureVerificationFailed,
}

} // verus!
