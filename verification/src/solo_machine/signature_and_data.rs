//! A signed statement: signature bytes, the domain tag and bytes that were
//! signed, and the signing time.

use vstd::prelude::*;

use crate::client::error::Kind;
use crate::solo_machine::data_type::DataType;
use crate::wire::bytes_eq;

verus! {

/// One purportedly signed statement, as carried inside misbehaviour
/// evidence.
#[derive(Clone, Debug, PartialEq, Eq)]
pub struct SignatureAndData {
    /// The raw signature bytes.
    pub signature: Vec<u8>,
    /// What category of payload was signed.
    pub data_type: DataType,
    /// The bytes that were signed.
    pub data: Vec<u8>,
    /// The signing time.
    pub timestamp: u64,
}

/// The mathematical shape of a `SignatureAndData`.
pub struct SignatureAndDataView {
    /// The raw signature bytes.
    pub signature: Seq<u8>,
    /// What category of payload was signed.
    pub data_type: DataType,
    /// The bytes that were signed.
    pub data: Seq<u8>,
    /// The signing time.
    pub timestamp: u64,
}

impl View for SignatureAndData {
    type V = SignatureAndDataView;

    open spec fn view(&self) -> SignatureAndDataView {
        SignatureAndDataView {
            signature: self.signature@,
            data_type: self.data_type,
            data: self.data@,
            timestamp: self.timestamp,
        }
    }
}

impl SignatureAndData {
    /// Basic validity: a signature, signed bytes, a real domain tag and a
    /// nonzero time.
    pub open spec fn spec_valid_basic(&self) -> bool {
        &&& self.signature@.len() != 0
        &&& self.data@.len() != 0
        &&& self.data_type != DataType::UninitializedUnspecified
        &&& self.timestamp != 0
    }

    /// Validates this statement: the signature and the signed bytes must be
    /// non-empty, the domain tag must not be the unspecified default, and
    /// the timestamp must be nonzero.
    pub fn validate_basic(&self) -> (r: Result<(), Kind>)
        ensures
            (r is Ok) == self.spec_valid_basic(),
            r is Err ==> r->Err_0 == Kind::InvalidSignatureAndData,
    {
        if self.signature.len() == 0 {
            return Err(Kind::InvalidSignatureAndData);
        }
        if self.data.len() == 0 {
            return Err(Kind::InvalidSignatureAndData);
        }
        if self.data_type == DataType::UninitializedUnspecified {
            return Err(Kind::InvalidSignatureAndData);
        }
        if self.timestamp == 0 {
            return Err(Kind::InvalidSignatureAndData);
        }
        Ok(())
    }

    /// Structural equality of two statements.
    pub fn same_as(&self, other: &SignatureAndData) -> (r: bool)
        ensures
            r == (self@ == other@),
    {
        let r = bytes_eq(&self.signature, &other.signature) && self.data_type == other.data_type
            && bytes_eq(&self.data, &other.data) && self.timestamp == other.timestamp;
        proof {
            if self.signature@ == other.signature@ && self.data_type == other.data_type
                && self.data@ == other.data@ && self.timestamp == other.timestamp {
                assert(self@ == other@);
            } else {
                assert(self@ != other@);
            }
        }
        r
    }
}

} // verus!
