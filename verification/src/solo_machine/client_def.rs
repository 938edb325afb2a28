//! The header-driven state transition: validate a proposed header against
//! the current client state, verify its signature under the currently
//! trusted key, and produce the updated state.

use vstd::prelude::*;

use crate::client::crypto::{spec_verify, verify_signature, SignatureData};
use crate::client::error::Kind;
use crate::client::signature_codec::spec_dec_signature_data;
use crate::solo_machine::client_state::{ClientState, ClientStateView};
use crate::solo_machine::codec::spec_header_sign_bytes;
use crate::solo_machine::consensus_state::{ConsensusState, ConsensusStateView};
use crate::solo_machine::header::Header;

verus! {

/// The solo-machine light client's verification rules.
#[derive(Clone, Copy, Debug, PartialEq, Eq, Structural)]
pub struct SoloMachineClient;

impl SoloMachineClient {
    /// Checks a proposed header against the current client state and, when
    /// it is authentic and sequential, commits the update atomically.
    ///
    /// The header must claim exactly the client's current sequence (strict
    /// lock-step), must not move time backward (equal timestamps are
    /// accepted), and its signature payload must verify under the
    /// *previous* consensus state's key over the canonical sign bytes this
    /// header implies.  On success the sequence advances by one and the
    /// consensus state is replaced wholesale with the header's new key,
    /// diversifier and timestamp; on any failure nothing is updated.
    pub fn check_header_and_update_state(&self, client_state: ClientState, header: Header) -> (r:
        Result<(ClientState, ConsensusState), Kind>)
        requires
            client_state.sequence < u64::MAX,
        ensures
            match r {
                Ok(p) => {
                    &&& header.sequence == client_state.sequence
                    &&& header.timestamp >= client_state.consensus_state.timestamp
                    &&& spec_dec_signature_data(header.signature@) matches Ok(sdv) && spec_verify(
                        client_state.consensus_state.public_key@,
                        spec_header_sign_bytes(header@),
                        sdv,
                    ) is Ok
                    &&& p.1@ == (ConsensusStateView {
                        public_key: header.new_public_key@,
                        diversifier: header.new_diversifier@,
                        timestamp: header.timestamp,
                    })
                    &&& p.0@ == (ClientStateView {
                        sequence: (client_state.sequence + 1) as u64,
                        frozen_sequence: client_state.frozen_sequence,
                        consensus_state: p.1@,
                        allow_update_after_proposal: client_state.allow_update_after_proposal,
                    })
                },
                Err(e) => {
                    if header.sequence != client_state.sequence {
                        e == Kind::InvalidHeader
                    } else if header.timestamp < client_state.consensus_state.timestamp {
                        e == Kind::InvalidHeader
                    } else {
                        match spec_dec_signature_data(header.signature@) {
                            Ok(sdv) => spec_verify(
                                client_state.consensus_state.public_key@,
                                spec_header_sign_bytes(header@),
                                sdv,
                            ) == Err::<(), Kind>(e),
                            Err(de) => e == de,
                        }
                    }
                },
            },
    {
        if header.sequence != client_state.sequence {
            return Err(Kind::InvalidHeader);
        }
        if header.timestamp < client_state.consensus_state.timestamp {
            return Err(Kind::InvalidHeader);
        }
        let header_sign_bytes = header.get_sign_bytes();
        let signature_data = match SignatureData::decode_vec(&header.signature) {
            Ok(signature_data) => signature_data,
            Err(e) => {
                return Err(e);
            },
        };
        match verify_signature(
            &client_state.consensus_state.public_key,
            &header_sign_bytes,
            &signature_data,
        ) {
            Ok(u) => {},
            Err(e) => {
                return Err(e);
            },
        }
        let mut client_state = client_state;
        client_state.consensus_state.public_key = header.new_public_key;
        client_state.consensus_state.diversifier = header.new_diversifier;
        client_state.consensus_state.timestamp = header.timestamp;
        client_state.sequence = client_state.sequence + 1;
        let consensus_state = client_state.consensus_state.clone();
        Ok((client_state, consensus_state))
    }
}

} // verus!
