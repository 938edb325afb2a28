//! Canonical wire codec for the solo machine's persisted and transient
//! values: consensus state, client state, header, and the signing payload.

use vstd::prelude::*;

use crate::client::codec::{
    bytes_to_string, lemma_any_pub_key_round_trip, spec_dec_any_pub_key, spec_enc_any_pub_key,
    spec_pk_enc_sized,
};
use crate::client::crypto::AnyPublicKey;
use crate::client::error::Kind;
use crate::solo_machine::client_state::{ClientState, ClientStateView};
use crate::solo_machine::consensus_state::{ConsensusState, ConsensusStateView};
use crate::solo_machine::data_type::DataType;
use crate::solo_machine::header::{Header, HeaderView};
use crate::solo_machine::header_data::{HeaderData, HeaderDataView};
use crate::solo_machine::misbehaviour::{Misbehaviour, MisbehaviourView};
use crate::solo_machine::sign_bytes::{SignBytes, SignBytesView};
use crate::solo_machine::signature_and_data::{SignatureAndData, SignatureAndDataView};
use crate::wire::{
    decode_varint, encode_field_bytes, encode_field_msg, encode_field_varint, lemma_dec_field_msg,
    lemma_dec_opt_bytes, lemma_dec_opt_varint, lemma_varint_round_trip, read_len_delim,
    read_opt_bytes, read_opt_varint, spec_dec_opt_bytes, spec_dec_opt_varint, spec_field_bytes,
    spec_field_msg, spec_field_varint, spec_read_len_delim, spec_varint, spec_varint_decode,
};
use vstd::string::StrSliceExecFns;
use vstd::utf8::{
    decode_utf8, encode_utf8, encode_utf8_decode_utf8, encode_utf8_valid_utf8, valid_utf8,
};

verus! {

/// Canonical encoding of the semantic payload of a header signature.
pub open spec fn spec_enc_header_data(v: HeaderDataView) -> Seq<u8> {
    spec_field_msg(10, spec_enc_any_pub_key(v.new_public_key)) + spec_field_bytes(
        18,
        encode_utf8(v.new_diversifier),
    )
}

/// Canonical encoding of the signing payload.
pub open spec fn spec_enc_sign_bytes(v: SignBytesView) -> Seq<u8> {
    spec_field_varint(8, v.sequence) + spec_field_varint(16, v.timestamp) + spec_field_bytes(
        26,
        encode_utf8(v.diversifier),
    ) + spec_field_varint(32, v.data_type.spec_wire_value()) + spec_field_bytes(42, v.data)
}

/// The exact bytes a header's signature must cover: its sequence,
/// timestamp and new diversifier, the header domain tag, and the encoded
/// semantic payload.
pub open spec fn spec_header_sign_bytes(h: HeaderView) -> Seq<u8> {
    spec_enc_sign_bytes(
        SignBytesView {
            sequence: h.sequence,
            timestamp: h.timestamp,
            diversifier: h.new_diversifier,
            data_type: DataType::Header,
            data: spec_enc_header_data(
                HeaderDataView {
                    new_public_key: h.new_public_key,
                    new_diversifier: h.new_diversifier,
                },
            ),
        },
    )
}

/// Canonical encoding of a consensus state.
pub open spec fn spec_enc_consensus_state(v: ConsensusStateView) -> Seq<u8> {
    spec_field_msg(10, spec_enc_any_pub_key(v.public_key)) + spec_field_bytes(
        18,
        encode_utf8(v.diversifier),
    ) + spec_field_varint(24, v.timestamp)
}

/// Canonical parsing of a consensus state; a missing public key is
/// malformed input.  Public-key errors are reported unchanged.
pub open spec fn spec_dec_consensus_state(s: Seq<u8>) -> Result<ConsensusStateView, Kind> {
    match spec_varint_decode(s) {
        Some(tc) => {
            if tc.0 != 10 {
                Err(Kind::InvalidRawConsensusState)
            } else {
                match spec_read_len_delim(s.skip(tc.1)) {
                    Some(pr) => match spec_dec_any_pub_key(pr.0) {
                        Ok(pk) => match spec_dec_opt_bytes(pr.1, 18) {
                            Some(dr) => {
                                if !valid_utf8(dr.0) {
                                    Err(Kind::InvalidRawConsensusState)
                                } else {
                                    match spec_dec_opt_varint(dr.1, 24) {
                                        Some(vr) => {
                                            if vr.1.len() == 0 {
                                                Ok(
                                                    ConsensusStateView {
                                                        public_key: pk,
                                                        diversifier: decode_utf8(dr.0),
                                                        timestamp: vr.0,
                                                    },
                                                )
                                            } else {
                                                Err(Kind::InvalidRawConsensusState)
                                            }
                                        },
                                        None => Err(Kind::InvalidRawConsensusState),
                                    }
                                }
                            },
                            None => Err(Kind::InvalidRawConsensusState),
                        },
                        Err(e) => Err(e),
                    },
                    None => Err(Kind::InvalidRawConsensusState),
                }
            }
        },
        None => Err(Kind::InvalidRawConsensusState),
    }
}

/// Whether a consensus state's parts are small enough for its canonical
/// encoding to be framed.  Every state built from in-memory values
/// satisfies this.
pub open spec fn spec_cs_enc_sized(v: ConsensusStateView) -> bool {
    &&& spec_pk_enc_sized(v.public_key)
    &&& spec_enc_any_pub_key(v.public_key).len() <= u64::MAX
    &&& encode_utf8(v.diversifier).len() <= u64::MAX
}

/// An encoded consensus state parses back to exactly its shape: the wire
/// round-trip for consensus states.
pub proof fn lemma_consensus_state_round_trip(v: ConsensusStateView)
    requires
        spec_cs_enc_sized(v),
    ensures
        spec_dec_consensus_state(spec_enc_consensus_state(v)) == Ok::<ConsensusStateView, Kind>(v),
{
    let encpk = spec_enc_any_pub_key(v.public_key);
    let divb = encode_utf8(v.diversifier);
    let f2 = spec_field_bytes(18, divb);
    let f3 = spec_field_varint(24, v.timestamp);
    lemma_dec_field_msg(10, encpk, f2 + f3);
    assert(spec_enc_consensus_state(v) =~= spec_field_msg(10, encpk) + (f2 + f3));
    lemma_any_pub_key_round_trip(v.public_key);
    if v.timestamp != 0 {
        lemma_varint_round_trip(24, spec_varint(v.timestamp));
        assert(f3 =~= spec_varint(24) + spec_varint(v.timestamp));
    }
    lemma_dec_opt_bytes(18, divb, f3);
    lemma_dec_opt_varint(24, v.timestamp, Seq::empty());
    assert(f3 + Seq::<u8>::empty() =~= f3);
    encode_utf8_valid_utf8(v.diversifier);
    encode_utf8_decode_utf8(v.diversifier);
}

/// Canonical encoding of a client state.
pub open spec fn spec_enc_client_state(v: ClientStateView) -> Seq<u8> {
    spec_field_varint(8, v.sequence) + spec_field_varint(16, v.frozen_sequence) + spec_field_msg(
        26,
        spec_enc_consensus_state(v.consensus_state),
    ) + spec_field_varint(32, if v.allow_update_after_proposal { 1u64 } else { 0u64 })
}

/// Canonical parsing of a client state; a missing consensus state is
/// malformed input.  Inner errors are reported unchanged.
pub open spec fn spec_dec_client_state(s: Seq<u8>) -> Result<ClientStateView, Kind> {
    match spec_dec_opt_varint(s, 8) {
        Some(sr) => match spec_dec_opt_varint(sr.1, 16) {
            Some(fr) => match spec_varint_decode(fr.1) {
                Some(tc) => {
                    if tc.0 != 26 {
                        Err(Kind::InvalidRawClientState)
                    } else {
                        match spec_read_len_delim(fr.1.skip(tc.1)) {
                            Some(pr) => match spec_dec_consensus_state(pr.0) {
                                Ok(cs) => match spec_dec_opt_varint(pr.1, 32) {
                                    Some(ar) => {
                                        if ar.0 > 1 {
                                            Err(Kind::InvalidRawClientState)
                                        } else if ar.1.len() != 0 {
                                            Err(Kind::InvalidRawClientState)
                                        } else {
                                            Ok(
                                                ClientStateView {
                                                    sequence: sr.0,
                                                    frozen_sequence: fr.0,
                                                    consensus_state: cs,
                                                    allow_update_after_proposal: ar.0 == 1,
                                                },
                                            )
                                        }
                                    },
                                    None => Err(Kind::InvalidRawClientState),
                                },
                                Err(e) => Err(e),
                            },
                            None => Err(Kind::InvalidRawClientState),
                        }
                    }
                },
                None => Err(Kind::InvalidRawClientState),
            },
            None => Err(Kind::InvalidRawClientState),
        },
        None => Err(Kind::InvalidRawClientState),
    }
}

/// Whether a client state's parts are small enough for its canonical
/// encoding to be framed.
pub open spec fn spec_cls_enc_sized(v: ClientStateView) -> bool {
    &&& spec_cs_enc_sized(v.consensus_state)
    &&& spec_enc_consensus_state(v.consensus_state).len() <= u64::MAX
}

/// An encoded client state parses back to exactly its shape: the wire
/// round-trip for client states.
#[verifier::rlimit(100)]
pub proof fn lemma_client_state_round_trip(v: ClientStateView)
    requires
        spec_cls_enc_sized(v),
    ensures
        spec_dec_client_state(spec_enc_client_state(v)) == Ok::<ClientStateView, Kind>(v),
{
    let enccs = spec_enc_consensus_state(v.consensus_state);
    let f2 = spec_field_varint(16, v.frozen_sequence);
    let f3 = spec_field_msg(26, enccs);
    let ab = if v.allow_update_after_proposal {
        1u64
    } else {
        0u64
    };
    let f4 = spec_field_varint(32, ab);
    lemma_dec_field_msg(26, enccs, f4);
    assert(f3 + f4 =~= spec_field_msg(26, enccs) + f4);
    if v.frozen_sequence != 0 {
        lemma_varint_round_trip(16, spec_varint(v.frozen_sequence) + (f3 + f4));
        assert(f2 + (f3 + f4) =~= spec_varint(16) + (spec_varint(v.frozen_sequence) + (f3 + f4)));
    } else {
        assert(f2 + (f3 + f4) =~= f3 + f4);
    }
    lemma_dec_opt_varint(8, v.sequence, f2 + (f3 + f4));
    assert(spec_enc_client_state(v) =~= spec_field_varint(8, v.sequence) + (f2 + (f3 + f4)));
    lemma_dec_opt_varint(16, v.frozen_sequence, f3 + f4);
    lemma_consensus_state_round_trip(v.consensus_state);
    lemma_dec_opt_varint(32, ab, Seq::empty());
    assert(f4 + Seq::<u8>::empty() =~= f4);
}

/// Canonical encoding of a header.
pub open spec fn spec_enc_header(v: HeaderView) -> Seq<u8> {
    spec_field_varint(8, v.sequence) + spec_field_varint(16, v.timestamp) + spec_field_bytes(
        26,
        v.signature,
    ) + spec_field_msg(34, spec_enc_any_pub_key(v.new_public_key)) + spec_field_bytes(
        42,
        encode_utf8(v.new_diversifier),
    )
}

/// Canonical parsing of a header; a missing new public key is malformed
/// input.  Public-key errors are reported unchanged.
pub open spec fn spec_dec_header(s: Seq<u8>) -> Result<HeaderView, Kind> {
    match spec_dec_opt_varint(s, 8) {
        Some(sr) => match spec_dec_opt_varint(sr.1, 16) {
            Some(tr) => match spec_dec_opt_bytes(tr.1, 26) {
                Some(gr) => match spec_varint_decode(gr.1) {
                    Some(tc) => {
                        if tc.0 != 34 {
                            Err(Kind::InvalidRawHeader)
                        } else {
                            match spec_read_len_delim(gr.1.skip(tc.1)) {
                                Some(pr) => match spec_dec_any_pub_key(pr.0) {
                                    Ok(pk) => match spec_dec_opt_bytes(pr.1, 42) {
                                        Some(dr) => {
                                            if !valid_utf8(dr.0) {
                                                Err(Kind::InvalidRawHeader)
                                            } else if dr.1.len() != 0 {
                                                Err(Kind::InvalidRawHeader)
                                            } else {
                                                Ok(
                                                    HeaderView {
                                                        sequence: sr.0,
                                                        timestamp: tr.0,
                                                        signature: gr.0,
                                                        new_public_key: pk,
                                                        new_diversifier: decode_utf8(dr.0),
                                                    },
                                                )
                                            }
                                        },
                                        None => Err(Kind::InvalidRawHeader),
                                    },
                                    Err(e) => Err(e),
                                },
                                None => Err(Kind::InvalidRawHeader),
                            }
                        }
                    },
                    None => Err(Kind::InvalidRawHeader),
                },
                None => Err(Kind::InvalidRawHeader),
            },
            None => Err(Kind::InvalidRawHeader),
        },
        None => Err(Kind::InvalidRawHeader),
    }
}

/// Whether a header's parts are small enough for its canonical encoding
/// to be framed.
pub open spec fn spec_header_enc_sized(v: HeaderView) -> bool {
    &&& spec_pk_enc_sized(v.new_public_key)
    &&& spec_enc_any_pub_key(v.new_public_key).len() <= u64::MAX
    &&& encode_utf8(v.new_diversifier).len() <= u64::MAX
    &&& v.signature.len() <= u64::MAX
}

/// An encoded header parses back to exactly its shape: the wire
/// round-trip for headers.
#[verifier::rlimit(100)]
pub proof fn lemma_header_round_trip(v: HeaderView)
    requires
        spec_header_enc_sized(v),
    ensures
        spec_dec_header(spec_enc_header(v)) == Ok::<HeaderView, Kind>(v),
{
    let encpk = spec_enc_any_pub_key(v.new_public_key);
    let divb = encode_utf8(v.new_diversifier);
    let f3 = spec_field_bytes(26, v.signature);
    let f4 = spec_field_msg(34, encpk);
    let f5 = spec_field_bytes(42, divb);
    let tail3 = f3 + (f4 + f5);
    let tail2 = spec_field_varint(16, v.timestamp) + tail3;
    let s = spec_field_varint(8, v.sequence) + tail2;
    assert(spec_enc_header(v) =~= s);
    assert(spec_varint_decode(f4 + f5) == Some((34u64, spec_varint(34).len() as int))
        && spec_read_len_delim((f4 + f5).skip(spec_varint(34).len() as int)) == Some(
        (encpk, f5),
    )) by {
        lemma_dec_field_msg(34, encpk, f5);
    }
    assert(spec_dec_opt_bytes(f5, 42) == Some((divb, Seq::<u8>::empty()))) by {
        lemma_dec_opt_bytes(42, divb, Seq::empty());
        assert(f5 + Seq::<u8>::empty() =~= f5);
    }
    assert(spec_dec_opt_bytes(tail3, 26) == Some((v.signature, f4 + f5))) by {
        if v.signature.len() != 0 {
            lemma_varint_round_trip(
                26,
                spec_varint(v.signature.len() as u64) + v.signature + (f4 + f5),
            );
            assert(tail3 =~= spec_varint(26) + (spec_varint(v.signature.len() as u64)
                + v.signature + (f4 + f5)));
        } else {
            assert(tail3 =~= f4 + f5);
        }
        lemma_dec_opt_bytes(26, v.signature, f4 + f5);
    }
    assert(match spec_varint_decode(tail3) {
        Some(tc) => tc.0 == 26 || tc.0 == 34,
        None => false,
    }) by {
        if v.signature.len() != 0 {
            lemma_varint_round_trip(
                26,
                spec_varint(v.signature.len() as u64) + v.signature + (f4 + f5),
            );
            assert(tail3 =~= spec_varint(26) + (spec_varint(v.signature.len() as u64)
                + v.signature + (f4 + f5)));
        } else {
            assert(tail3 =~= f4 + f5);
        }
    }
    assert(spec_dec_opt_varint(tail2, 16) == Some((v.timestamp, tail3))) by {
        if v.timestamp != 0 {
            lemma_varint_round_trip(16, spec_varint(v.timestamp) + tail3);
            assert(tail2 =~= spec_varint(16) + (spec_varint(v.timestamp) + tail3));
        } else {
            assert(tail2 =~= tail3);
        }
        lemma_dec_opt_varint(16, v.timestamp, tail3);
    }
    assert(spec_dec_opt_varint(s, 8) == Some((v.sequence, tail2))) by {
        if v.timestamp != 0 {
            lemma_varint_round_trip(16, spec_varint(v.timestamp) + tail3);
            assert(tail2 =~= spec_varint(16) + (spec_varint(v.timestamp) + tail3));
        } else {
            assert(tail2 =~= tail3);
        }
        lemma_dec_opt_varint(8, v.sequence, tail2);
    }
    lemma_any_pub_key_round_trip(v.new_public_key);
    encode_utf8_valid_utf8(v.new_diversifier);
    encode_utf8_decode_utf8(v.new_diversifier);
}

impl ConsensusState {
    /// Canonical wire encoding of this consensus state.
    pub fn encode_vec(&self) -> (r: Vec<u8>)
        ensures
            r@ == spec_enc_consensus_state(self@),
    {
        let mut out: Vec<u8> = Vec::new();
        let pk_bytes = self.public_key.encode_vec();
        encode_field_msg(&mut out, 10, &pk_bytes);
        let div_bytes = self.diversifier.as_str().as_bytes_vec();
        encode_field_bytes(&mut out, 18, &div_bytes);
        encode_field_varint(&mut out, 24, self.timestamp);
        proof {
            assert(out@ =~= spec_enc_consensus_state(self@));
        }
        out
    }

    /// Parses a consensus state from its canonical wire encoding.
    pub fn decode_vec(bytes: &Vec<u8>) -> (r: Result<ConsensusState, Kind>)
        ensures
            (r is Ok) == (spec_dec_consensus_state(bytes@) is Ok),
            r matches Ok(cs) ==> spec_dec_consensus_state(bytes@) == Ok::<
                ConsensusStateView,
                Kind,
            >(cs@),
            r matches Err(e) ==> spec_dec_consensus_state(bytes@) == Err::<
                ConsensusStateView,
                Kind,
            >(e),
    {
        proof {
            assert(bytes@.skip(0) =~= bytes@);
        }
        let tc = match decode_varint(bytes, 0) {
            Some(tc) => tc,
            None => {
                return Err(Kind::InvalidRawConsensusState);
            },
        };
        if tc.0 != 10 {
            return Err(Kind::InvalidRawConsensusState);
        }
        let pr = match read_len_delim(bytes, tc.1) {
            Some(pr) => pr,
            None => {
                return Err(Kind::InvalidRawConsensusState);
            },
        };
        let (pk_bytes, pk_end) = pr;
        let public_key = match AnyPublicKey::decode_vec(&pk_bytes) {
            Ok(public_key) => public_key,
            Err(e) => {
                return Err(e);
            },
        };
        let dr = match read_opt_bytes(bytes, pk_end, 18) {
            Some(dr) => dr,
            None => {
                return Err(Kind::InvalidRawConsensusState);
            },
        };
        let (div_bytes, div_end) = dr;
        let ghost div_bytes_g = div_bytes@;
        let diversifier = match bytes_to_string(div_bytes) {
            Some(diversifier) => diversifier,
            None => {
                return Err(Kind::InvalidRawConsensusState);
            },
        };
        let vr = match read_opt_varint(bytes, div_end, 24) {
            Some(vr) => vr,
            None => {
                return Err(Kind::InvalidRawConsensusState);
            },
        };
        if vr.1 != bytes.len() {
            return Err(Kind::InvalidRawConsensusState);
        }
        Ok(ConsensusState { public_key, diversifier, timestamp: vr.0 })
    }
}

impl ClientState {
    /// Canonical wire encoding of this client state.
    pub fn encode_vec(&self) -> (r: Vec<u8>)
        ensures
            r@ == spec_enc_client_state(self@),
    {
        let mut out: Vec<u8> = Vec::new();
        encode_field_varint(&mut out, 8, self.sequence);
        encode_field_varint(&mut out, 16, self.frozen_sequence);
        let cs_bytes = self.consensus_state.encode_vec();
        encode_field_msg(&mut out, 26, &cs_bytes);
        let ab: u64 = if self.allow_update_after_proposal {
            1
        } else {
            0
        };
        encode_field_varint(&mut out, 32, ab);
        proof {
            assert(out@ =~= spec_enc_client_state(self@));
        }
        out
    }

    /// Parses a client state from its canonical wire encoding.
    pub fn decode_vec(bytes: &Vec<u8>) -> (r: Result<ClientState, Kind>)
        ensures
            (r is Ok) == (spec_dec_client_state(bytes@) is Ok),
            r matches Ok(cs) ==> spec_dec_client_state(bytes@) == Ok::<ClientStateView, Kind>(cs@),
            r matches Err(e) ==> spec_dec_client_state(bytes@) == Err::<ClientStateView, Kind>(e),
    {
        proof {
            assert(bytes@.skip(0) =~= bytes@);
        }
        let sr = match read_opt_varint(bytes, 0, 8) {
            Some(sr) => sr,
            None => {
                return Err(Kind::InvalidRawClientState);
            },
        };
        let fr = match read_opt_varint(bytes, sr.1, 16) {
            Some(fr) => fr,
            None => {
                return Err(Kind::InvalidRawClientState);
            },
        };
        let tc = match decode_varint(bytes, fr.1) {
            Some(tc) => tc,
            None => {
                return Err(Kind::InvalidRawClientState);
            },
        };
        if tc.0 != 26 {
            return Err(Kind::InvalidRawClientState);
        }
        proof {
            assert(bytes@.skip(fr.1 as int).skip(tc.1 as int - fr.1 as int) =~= bytes@.skip(
                tc.1 as int,
            ));
        }
        let pr = match read_len_delim(bytes, tc.1) {
            Some(pr) => pr,
            None => {
                return Err(Kind::InvalidRawClientState);
            },
        };
        let (cs_bytes, cs_end) = pr;
        let consensus_state = match ConsensusState::decode_vec(&cs_bytes) {
            Ok(consensus_state) => consensus_state,
            Err(e) => {
                return Err(e);
            },
        };
        let ar = match read_opt_varint(bytes, cs_end, 32) {
            Some(ar) => ar,
            None => {
                return Err(Kind::InvalidRawClientState);
            },
        };
        if ar.0 > 1 {
            return Err(Kind::InvalidRawClientState);
        }
        if ar.1 != bytes.len() {
            return Err(Kind::InvalidRawClientState);
        }
        Ok(
            ClientState {
                sequence: sr.0,
                frozen_sequence: fr.0,
                consensus_state,
                allow_update_after_proposal: ar.0 == 1,
            },
        )
    }
}

impl Header {
    /// Canonical wire encoding of this header.
    pub fn encode_vec(&self) -> (r: Vec<u8>)
        ensures
            r@ == spec_enc_header(self@),
    {
        let mut out: Vec<u8> = Vec::new();
        encode_field_varint(&mut out, 8, self.sequence);
        encode_field_varint(&mut out, 16, self.timestamp);
        encode_field_bytes(&mut out, 26, &self.signature);
        let pk_bytes = self.new_public_key.encode_vec();
        encode_field_msg(&mut out, 34, &pk_bytes);
        let div_bytes = self.new_diversifier.as_str().as_bytes_vec();
        encode_field_bytes(&mut out, 42, &div_bytes);
        proof {
            assert(out@ =~= spec_enc_header(self@));
        }
        out
    }

    /// Parses a header from its canonical wire encoding.
    pub fn decode_vec(bytes: &Vec<u8>) -> (r: Result<Header, Kind>)
        ensures
            (r is Ok) == (spec_dec_header(bytes@) is Ok),
            r matches Ok(h) ==> spec_dec_header(bytes@) == Ok::<HeaderView, Kind>(h@),
            r matches Err(e) ==> spec_dec_header(bytes@) == Err::<HeaderView, Kind>(e),
    {
        proof {
            assert(bytes@.skip(0) =~= bytes@);
        }
        let sr = match read_opt_varint(bytes, 0, 8) {
            Some(sr) => sr,
            None => {
                return Err(Kind::InvalidRawHeader);
            },
        };
        let tr = match read_opt_varint(bytes, sr.1, 16) {
            Some(tr) => tr,
            None => {
                return Err(Kind::InvalidRawHeader);
            },
        };
        let gr = match read_opt_bytes(bytes, tr.1, 26) {
            Some(gr) => gr,
            None => {
                return Err(Kind::InvalidRawHeader);
            },
        };
        let (signature, sig_end) = gr;
        let tc = match decode_varint(bytes, sig_end) {
            Some(tc) => tc,
            None => {
                return Err(Kind::InvalidRawHeader);
            },
        };
        if tc.0 != 34 {
            return Err(Kind::InvalidRawHeader);
        }
        proof {
            assert(bytes@.skip(sig_end as int).skip(tc.1 as int - sig_end as int) =~= bytes@.skip(
                tc.1 as int,
            ));
        }
        let pr = match read_len_delim(bytes, tc.1) {
            Some(pr) => pr,
            None => {
                return Err(Kind::InvalidRawHeader);
            },
        };
        let (pk_bytes, pk_end) = pr;
        let new_public_key = match AnyPublicKey::decode_vec(&pk_bytes) {
            Ok(new_public_key) => new_public_key,
            Err(e) => {
                return Err(e);
            },
        };
        let dr = match read_opt_bytes(bytes, pk_end, 42) {
            Some(dr) => dr,
            None => {
                return Err(Kind::InvalidRawHeader);
            },
        };
        let (div_bytes, div_end) = dr;
        let new_diversifier = match bytes_to_string(div_bytes) {
            Some(new_diversifier) => new_diversifier,
            None => {
                return Err(Kind::InvalidRawHeader);
            },
        };
        if div_end != bytes.len() {
            return Err(Kind::InvalidRawHeader);
        }
        Ok(
            Header {
                sequence: sr.0,
                timestamp: tr.0,
                signature,
                new_public_key,
                new_diversifier,
            },
        )
    }

    /// The canonical signing payload bytes for this header: recomputed
    /// independently by verification and used as the verified message.
    pub fn get_sign_bytes(&self) -> (r: Vec<u8>)
        ensures
            r@ == spec_header_sign_bytes(self@),
    {
        let sign_bytes = SignBytes::from_header(self);
        sign_bytes.encode_vec()
    }
}

impl HeaderData {
    /// Canonical wire encoding of this payload.
    pub fn encode_vec(&self) -> (r: Vec<u8>)
        ensures
            r@ == spec_enc_header_data(self@),
    {
        let mut out: Vec<u8> = Vec::new();
        let pk_bytes = self.new_public_key.encode_vec();
        encode_field_msg(&mut out, 10, &pk_bytes);
        let div_bytes = self.new_diversifier.as_str().as_bytes_vec();
        encode_field_bytes(&mut out, 18, &div_bytes);
        proof {
            assert(out@ =~= spec_enc_header_data(self@));
        }
        out
    }
}

impl SignBytes {
    /// The signing payload a header implies: the header's own sequence,
    /// timestamp and new diversifier, the header domain tag, and the
    /// encoded semantic payload.
    pub fn from_header(header: &Header) -> (r: SignBytes)
        ensures
            r@ == (SignBytesView {
                sequence: header.sequence,
                timestamp: header.timestamp,
                diversifier: header.new_diversifier@,
                data_type: DataType::Header,
                data: spec_enc_header_data(
                    HeaderDataView {
                        new_public_key: header.new_public_key@,
                        new_diversifier: header.new_diversifier@,
                    },
                ),
            }),
    {
        let header_data = HeaderData::from_header(header);
        let data = header_data.encode_vec();
        SignBytes {
            sequence: header.sequence,
            timestamp: header.timestamp,
            diversifier: header.new_diversifier.clone(),
            data_type: DataType::Header,
            data,
        }
    }

    /// Canonical wire encoding of this signing payload.
    pub fn encode_vec(&self) -> (r: Vec<u8>)
        ensures
            r@ == spec_enc_sign_bytes(self@),
    {
        let mut out: Vec<u8> = Vec::new();
        encode_field_varint(&mut out, 8, self.sequence);
        encode_field_varint(&mut out, 16, self.timestamp);
        let div_bytes = self.diversifier.as_str().as_bytes_vec();
        encode_field_bytes(&mut out, 26, &div_bytes);
        encode_field_varint(&mut out, 32, self.data_type.wire_value());
        encode_field_bytes(&mut out, 42, &self.data);
        proof {
            assert(out@ =~= spec_enc_sign_bytes(self@));
        }
        out
    }
}

/// Canonical encoding of a signed statement.
pub open spec fn spec_enc_signature_and_data(v: SignatureAndDataView) -> Seq<u8> {
    spec_field_bytes(10, v.signature) + spec_field_varint(16, v.data_type.spec_wire_value())
        + spec_field_bytes(26, v.data) + spec_field_varint(32, v.timestamp)
}

/// Canonical parsing of a signed statement; an unknown domain tag is
/// malformed input.
pub open spec fn spec_dec_signature_and_data(s: Seq<u8>) -> Result<SignatureAndDataView, Kind> {
    match spec_dec_opt_bytes(s, 10) {
        Some(gr) => match spec_dec_opt_varint(gr.1, 16) {
            Some(tr) => match DataType::spec_from_wire_value(tr.0) {
                Some(data_type) => match spec_dec_opt_bytes(tr.1, 26) {
                    Some(dr) => match spec_dec_opt_varint(dr.1, 32) {
                        Some(sr) => {
                            if sr.1.len() == 0 {
                                Ok(
                                    SignatureAndDataView {
                                        signature: gr.0,
                                        data_type,
                                        data: dr.0,
                                        timestamp: sr.0,
                                    },
                                )
                            } else {
                                Err(Kind::InvalidRawMisbehaviour)
                            }
                        },
                        None => Err(Kind::InvalidRawMisbehaviour),
                    },
                    None => Err(Kind::InvalidRawMisbehaviour),
                },
                None => Err(Kind::InvalidRawMisbehaviour),
            },
            None => Err(Kind::InvalidRawMisbehaviour),
        },
        None => Err(Kind::InvalidRawMisbehaviour),
    }
}

/// An encoded signed statement parses back to exactly its shape: the wire
/// round-trip for signed statements.
#[verifier::rlimit(100)]
pub proof fn lemma_signature_and_data_round_trip(v: SignatureAndDataView)
    requires
        v.signature.len() <= u64::MAX,
        v.data.len() <= u64::MAX,
    ensures
        spec_dec_signature_and_data(spec_enc_signature_and_data(v)) == Ok::<
            SignatureAndDataView,
            Kind,
        >(v),
{
    let dt = v.data_type.spec_wire_value();
    let f3 = spec_field_bytes(26, v.data);
    let f4 = spec_field_varint(32, v.timestamp);
    let tail3 = f3 + f4;
    let tail2 = spec_field_varint(16, dt) + tail3;
    let s = spec_field_bytes(10, v.signature) + tail2;
    assert(spec_enc_signature_and_data(v) =~= s);
    assert(spec_dec_opt_varint(f4, 32) == Some((v.timestamp, Seq::<u8>::empty()))) by {
        lemma_dec_opt_varint(32, v.timestamp, Seq::empty());
        assert(f4 + Seq::<u8>::empty() =~= f4);
    }
    assert(spec_dec_opt_bytes(tail3, 26) == Some((v.data, f4))) by {
        if v.data.len() != 0 {
            lemma_varint_round_trip(26, spec_varint(v.data.len() as u64) + v.data + f4);
            assert(tail3 =~= spec_varint(26) + (spec_varint(v.data.len() as u64) + v.data + f4));
        } else {
            assert(tail3 =~= f4);
            if v.timestamp != 0 {
                lemma_varint_round_trip(32, spec_varint(v.timestamp));
                assert(f4 =~= spec_varint(32) + spec_varint(v.timestamp));
            }
        }
        lemma_dec_opt_bytes(26, v.data, f4);
    }
    assert(match spec_varint_decode(tail3) {
        Some(tc) => tc.0 == 26 || tc.0 == 32,
        None => tail3.len() == 0,
    }) by {
        if v.data.len() != 0 {
            lemma_varint_round_trip(26, spec_varint(v.data.len() as u64) + v.data + f4);
            assert(tail3 =~= spec_varint(26) + (spec_varint(v.data.len() as u64) + v.data + f4));
        } else {
            assert(tail3 =~= f4);
            if v.timestamp != 0 {
                lemma_varint_round_trip(32, spec_varint(v.timestamp));
                assert(f4 =~= spec_varint(32) + spec_varint(v.timestamp));
            }
        }
    }
    assert(spec_dec_opt_varint(tail2, 16) == Some((dt, tail3))) by {
        if dt != 0 {
            lemma_varint_round_trip(16, spec_varint(dt) + tail3);
            assert(tail2 =~= spec_varint(16) + (spec_varint(dt) + tail3));
        } else {
            assert(tail2 =~= tail3);
        }
        lemma_dec_opt_varint(16, dt, tail3);
    }
    assert(spec_dec_opt_bytes(s, 10) == Some((v.signature, tail2))) by {
        if dt != 0 {
            lemma_varint_round_trip(16, spec_varint(dt) + tail3);
            assert(tail2 =~= spec_varint(16) + (spec_varint(dt) + tail3));
        } else {
            assert(tail2 =~= tail3);
        }
        lemma_dec_opt_bytes(10, v.signature, tail2);
    }
}

/// Canonical encoding of misbehaviour evidence.
pub open spec fn spec_enc_misbehaviour(v: MisbehaviourView) -> Seq<u8> {
    spec_field_bytes(10, encode_utf8(v.client_id)) + spec_field_varint(16, v.sequence)
        + spec_field_msg(26, spec_enc_signature_and_data(v.signature_one)) + spec_field_msg(
        34,
        spec_enc_signature_and_data(v.signature_two),
    )
}

/// Canonical parsing of misbehaviour evidence; a missing statement is
/// malformed input.
pub open spec fn spec_dec_misbehaviour(s: Seq<u8>) -> Result<MisbehaviourView, Kind> {
    match spec_dec_opt_bytes(s, 10) {
        Some(cr) => {
            if !valid_utf8(cr.0) {
                Err(Kind::InvalidRawMisbehaviour)
            } else {
                match spec_dec_opt_varint(cr.1, 16) {
                    Some(qr) => match spec_varint_decode(qr.1) {
                        Some(t1) => {
                            if t1.0 != 26 {
                                Err(Kind::InvalidRawMisbehaviour)
                            } else {
                                match spec_read_len_delim(qr.1.skip(t1.1)) {
                                    Some(p1) => match spec_dec_signature_and_data(p1.0) {
                                        Ok(one) => match spec_varint_decode(p1.1) {
                                            Some(t2) => {
                                                if t2.0 != 34 {
                                                    Err(Kind::InvalidRawMisbehaviour)
                                                } else {
                                                    match spec_read_len_delim(p1.1.skip(t2.1)) {
                                                        Some(p2) => match
                                                        spec_dec_signature_and_data(p2.0) {
                                                            Ok(two) => {
                                                                if p2.1.len() == 0 {
                                                                    Ok(
                                                                        MisbehaviourView {
                                                                            client_id: decode_utf8(
                                                                                cr.0,
                                                                            ),
                                                                            sequence: qr.0,
                                                                            signature_one: one,
                                                                            signature_two: two,
                                                                        },
                                                                    )
                                                                } else {
                                                                    Err(
                                                                        Kind::InvalidRawMisbehaviour,
                                                                    )
                                                                }
                                                            },
                                                            Err(e) => Err(e),
                                                        },
                                                        None => Err(Kind::InvalidRawMisbehaviour),
                                                    }
                                                }
                                            },
                                            None => Err(Kind::InvalidRawMisbehaviour),
                                        },
                                        Err(e) => Err(e),
                                    },
                                    None => Err(Kind::InvalidRawMisbehaviour),
                                }
                            }
                        },
                        None => Err(Kind::InvalidRawMisbehaviour),
                    },
                    None => Err(Kind::InvalidRawMisbehaviour),
                }
            }
        },
        None => Err(Kind::InvalidRawMisbehaviour),
    }
}

/// An encoded misbehaviour report parses back to exactly its shape: the
/// wire round-trip for misbehaviour evidence.
#[verifier::rlimit(100)]
pub proof fn lemma_misbehaviour_round_trip(v: MisbehaviourView)
    requires
        encode_utf8(v.client_id).len() <= u64::MAX,
        v.signature_one.signature.len() <= u64::MAX,
        v.signature_one.data.len() <= u64::MAX,
        spec_enc_signature_and_data(v.signature_one).len() <= u64::MAX,
        v.signature_two.signature.len() <= u64::MAX,
        v.signature_two.data.len() <= u64::MAX,
        spec_enc_signature_and_data(v.signature_two).len() <= u64::MAX,
    ensures
        spec_dec_misbehaviour(spec_enc_misbehaviour(v)) == Ok::<MisbehaviourView, Kind>(v),
{
    let cidb = encode_utf8(v.client_id);
    let e1 = spec_enc_signature_and_data(v.signature_one);
    let e2 = spec_enc_signature_and_data(v.signature_two);
    let f3 = spec_field_msg(26, e1);
    let f4 = spec_field_msg(34, e2);
    let tail2 = spec_field_varint(16, v.sequence) + (f3 + f4);
    let s = spec_field_bytes(10, cidb) + tail2;
    assert(spec_enc_misbehaviour(v) =~= s);
    assert(spec_varint_decode(f4) == Some((34u64, spec_varint(34).len() as int))
        && spec_read_len_delim(f4.skip(spec_varint(34).len() as int)) == Some(
        (e2, Seq::<u8>::empty()),
    )) by {
        lemma_dec_field_msg(34, e2, Seq::empty());
        assert(spec_field_msg(34, e2) + Seq::<u8>::empty() =~= f4);
    }
    assert(spec_varint_decode(f3 + f4) == Some((26u64, spec_varint(26).len() as int))
        && spec_read_len_delim((f3 + f4).skip(spec_varint(26).len() as int)) == Some(
        (e1, f4),
    )) by {
        lemma_dec_field_msg(26, e1, f4);
    }
    assert(spec_dec_opt_varint(tail2, 16) == Some((v.sequence, f3 + f4))) by {
        if v.sequence != 0 {
            lemma_varint_round_trip(16, spec_varint(v.sequence) + (f3 + f4));
            assert(tail2 =~= spec_varint(16) + (spec_varint(v.sequence) + (f3 + f4)));
        } else {
            assert(tail2 =~= f3 + f4);
        }
        lemma_dec_opt_varint(16, v.sequence, f3 + f4);
    }
    assert(spec_dec_opt_bytes(s, 10) == Some((cidb, tail2))) by {
        if v.sequence != 0 {
            lemma_varint_round_trip(16, spec_varint(v.sequence) + (f3 + f4));
            assert(tail2 =~= spec_varint(16) + (spec_varint(v.sequence) + (f3 + f4)));
        } else {
            assert(tail2 =~= f3 + f4);
        }
        lemma_dec_opt_bytes(10, cidb, tail2);
    }
    lemma_signature_and_data_round_trip(v.signature_one);
    lemma_signature_and_data_round_trip(v.signature_two);
    encode_utf8_valid_utf8(v.client_id);
    encode_utf8_decode_utf8(v.client_id);
}

impl SignatureAndData {
    /// Canonical wire encoding of this signed statement.
    pub fn encode_vec(&self) -> (r: Vec<u8>)
        ensures
            r@ == spec_enc_signature_and_data(self@),
    {
        let mut out: Vec<u8> = Vec::new();
        encode_field_bytes(&mut out, 10, &self.signature);
        encode_field_varint(&mut out, 16, self.data_type.wire_value());
        encode_field_bytes(&mut out, 26, &self.data);
        encode_field_varint(&mut out, 32, self.timestamp);
        proof {
            assert(out@ =~= spec_enc_signature_and_data(self@));
        }
        out
    }

    /// Parses a signed statement from its canonical wire encoding.
    pub fn decode_vec(bytes: &Vec<u8>) -> (r: Result<SignatureAndData, Kind>)
        ensures
            (r is Ok) == (spec_dec_signature_and_data(bytes@) is Ok),
            r matches Ok(v) ==> spec_dec_signature_and_data(bytes@) == Ok::<
                SignatureAndDataView,
                Kind,
            >(v@),
            r matches Err(e) ==> spec_dec_signature_and_data(bytes@) == Err::<
                SignatureAndDataView,
                Kind,
            >(e),
    {
        proof {
            assert(bytes@.skip(0) =~= bytes@);
        }
        let gr = match read_opt_bytes(bytes, 0, 10) {
            Some(gr) => gr,
            None => {
                return Err(Kind::InvalidRawMisbehaviour);
            },
        };
        let (signature, sig_end) = gr;
        let tr = match read_opt_varint(bytes, sig_end, 16) {
            Some(tr) => tr,
            None => {
                return Err(Kind::InvalidRawMisbehaviour);
            },
        };
        let data_type = match DataType::from_wire_value(tr.0) {
            Some(data_type) => data_type,
            None => {
                return Err(Kind::InvalidRawMisbehaviour);
            },
        };
        let dr = match read_opt_bytes(bytes, tr.1, 26) {
            Some(dr) => dr,
            None => {
                return Err(Kind::InvalidRawMisbehaviour);
            },
        };
        let (data, data_end) = dr;
        let sr = match read_opt_varint(bytes, data_end, 32) {
            Some(sr) => sr,
            None => {
                return Err(Kind::InvalidRawMisbehaviour);
            },
        };
        if sr.1 != bytes.len() {
            return Err(Kind::InvalidRawMisbehaviour);
        }
        Ok(SignatureAndData { signature, data_type, data, timestamp: sr.0 })
    }
}

impl Misbehaviour {
    /// Canonical wire encoding of this evidence.
    pub fn encode_vec(&self) -> (r: Vec<u8>)
        ensures
            r@ == spec_enc_misbehaviour(self@),
    {
        let mut out: Vec<u8> = Vec::new();
        let cid_bytes = self.client_id.as_str().as_bytes_vec();
        encode_field_bytes(&mut out, 10, &cid_bytes);
        encode_field_varint(&mut out, 16, self.sequence);
        let one_bytes = self.signature_one.encode_vec();
        encode_field_msg(&mut out, 26, &one_bytes);
        let two_bytes = self.signature_two.encode_vec();
        encode_field_msg(&mut out, 34, &two_bytes);
        proof {
            assert(out@ =~= spec_enc_misbehaviour(self@));
        }
        out
    }

    /// Parses misbehaviour evidence from its canonical wire encoding.
    pub fn decode_vec(bytes: &Vec<u8>) -> (r: Result<Misbehaviour, Kind>)
        ensures
            (r is Ok) == (spec_dec_misbehaviour(bytes@) is Ok),
            r matches Ok(v) ==> spec_dec_misbehaviour(bytes@) == Ok::<MisbehaviourView, Kind>(v@),
            r matches Err(e) ==> spec_dec_misbehaviour(bytes@) == Err::<MisbehaviourView, Kind>(e),
    {
        proof {
            assert(bytes@.skip(0) =~= bytes@);
        }
        let cr = match read_opt_bytes(bytes, 0, 10) {
            Some(cr) => cr,
            None => {
                return Err(Kind::InvalidRawMisbehaviour);
            },
        };
        let (cid_bytes, cid_end) = cr;
        let client_id = match bytes_to_string(cid_bytes) {
            Some(client_id) => client_id,
            None => {
                return Err(Kind::InvalidRawMisbehaviour);
            },
        };
        let qr = match read_opt_varint(bytes, cid_end, 16) {
            Some(qr) => qr,
            None => {
                return Err(Kind::InvalidRawMisbehaviour);
            },
        };
        let t1 = match decode_varint(bytes, qr.1) {
            Some(t1) => t1,
            None => {
                return Err(Kind::InvalidRawMisbehaviour);
            },
        };
        if t1.0 != 26 {
            return Err(Kind::InvalidRawMisbehaviour);
        }
        proof {
            assert(bytes@.skip(qr.1 as int).skip(t1.1 as int - qr.1 as int) =~= bytes@.skip(
                t1.1 as int,
            ));
        }
        let p1 = match read_len_delim(bytes, t1.1) {
            Some(p1) => p1,
            None => {
                return Err(Kind::InvalidRawMisbehaviour);
            },
        };
        let (one_bytes, one_end) = p1;
        let signature_one = match SignatureAndData::decode_vec(&one_bytes) {
            Ok(signature_one) => signature_one,
            Err(e) => {
                return Err(e);
            },
        };
        let t2 = match decode_varint(bytes, one_end) {
            Some(t2) => t2,
            None => {
                return Err(Kind::InvalidRawMisbehaviour);
            },
        };
        if t2.0 != 34 {
            return Err(Kind::InvalidRawMisbehaviour);
        }
        proof {
            assert(bytes@.skip(one_end as int).skip(t2.1 as int - one_end as int) =~= bytes@.skip(
                t2.1 as int,
            ));
        }
        let p2 = match read_len_delim(bytes, t2.1) {
            Some(p2) => p2,
            None => {
                return Err(Kind::InvalidRawMisbehaviour);
            },
        };
        let (two_bytes, two_end) = p2;
        let signature_two = match SignatureAndData::decode_vec(&two_bytes) {
            Ok(signature_two) => signature_two,
            Err(e) => {
                return Err(e);
            },
        };
        if two_end != bytes.len() {
            return Err(Kind::InvalidRawMisbehaviour);
        }
        Ok(Misbehaviour { client_id, sequence: qr.0, signature_one, signature_two })
    }
}

} // verus!
