//! The canonical signing payload: the exact bytes a header's signature
//! must cover, binding sequence, timestamp, diversifier, a domain tag and
//! the semantic payload.

use vstd::prelude::*;

use crate::solo_machine::data_type::DataType;

verus! {

/// What must have been signed, as structured fields.  Its wire encoding is
/// byte-stable: the same logical values always produce the same bytes,
/// because verification recomputes it independently and uses it as the
/// verified message.
#[derive(Debug, PartialEq, Eq)]
pub struct SignBytes {
    /// The sequence being signed for.
    pub sequence: u64,
    /// The signing time.
    pub timestamp: u64,
    /// The diversifier scoping the signature to this client instance.
    pub diversifier: String,
    /// The domain tag naming what category of payload was signed.
    pub data_type: DataType,
    /// The wire-encoded semantic payload.
    pub data: Vec<u8>,
}

/// The mathematical shape of a `SignBytes`.
pub struct SignBytesView {
    /// The sequence being signed for.
    pub sequence: u64,
    /// The signing time.
    pub timestamp: u64,
    /// The diversifier's characters.
    pub diversifier: Seq<char>,
    /// The domain tag.
    pub data_type: DataType,
    /// The wire-encoded semantic payload.
    pub data: Seq<u8>,
}

impl View for SignBytes {
    type V = SignBytesView;

    open spec fn view(&self) -> SignBytesView {
        SignBytesView {
            sequence: self.sequence,
            timestamp: self.timestamp,
            diversifier: self.diversifier@,
            data_type: self.data_type,
            data: self.data@,
        }
    }
}

} // verus!
