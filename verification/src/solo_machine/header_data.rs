//! The semantic payload of a header signature: the key and diversifier
//! being rotated in.

use vstd::prelude::*;

use crate::client::crypto::{AnyPublicKey, PubKeyView};
use crate::solo_machine::header::Header;

verus! {

/// What a header's signature commits to beyond the sequence, timestamp and
/// diversifier: the new public key and new diversifier.
#[derive(Debug, PartialEq, Eq)]
pub struct HeaderData {
    /// The key being rotated in.
    pub new_public_key: AnyPublicKey,
    /// The diversifier taking effect.
    pub new_diversifier: String,
}

/// The mathematical shape of a `HeaderData`.
pub struct HeaderDataView {
    /// The shape of the key being rotated in.
    pub new_public_key: PubKeyView,
    /// The new diversifier's characters.
    pub new_diversifier: Seq<char>,
}

impl View for HeaderData {
    type V = HeaderDataView;

    open spec fn view(&self) -> HeaderDataView {
        HeaderDataView {
            new_public_key: self.new_public_key@,
            new_diversifier: self.new_diversifier@,
        }
    }
}

impl HeaderData {
    /// The signing payload a header implies.
    pub fn from_header(header: &Header) -> (r: HeaderData)
        ensures
            r.new_public_key@ == header.new_public_key@,
            r.new_diversifier@ == header.new_diversifier@,
    {
        HeaderData {
            new_public_key: header.new_public_key.clone(),
            new_diversifier: header.new_diversifier.clone(),
        }
    }
}

} // verus!
