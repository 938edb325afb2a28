use ed25519_dalek::Signer as _;
use solo_machine::client::client_type::ClientType;
use solo_machine::client::crypto::{AnyPublicKey, Ed25519PubKey, SignatureData};
use solo_machine::client::error::Kind;
use solo_machine::client::header::Header as HeaderTrait;
use solo_machine::client::misbehaviour::Misbehaviour as MisbehaviourTrait;
use solo_machine::solo_machine::client_def::SoloMachineClient;
use solo_machine::solo_machine::client_state::ClientState;
use solo_machine::solo_machine::consensus_state::ConsensusState;
use solo_machine::solo_machine::data_type::DataType;
use solo_machine::solo_machine::header::Header;
use solo_machine::solo_machine::misbehaviour::Misbehaviour;
use solo_machine::solo_machine::signature_and_data::SignatureAndData;

fn ed25519_key(seed: u8) -> (ed25519_dalek::SigningKey, AnyPublicKey) {
    let sk = ed25519_dalek::SigningKey::from_bytes(&[seed; 32]);
    let pk = AnyPublicKey::Ed25519(Ed25519PubKey { key: sk.verifying_key().to_bytes().to_vec() });
    (sk, pk)
}

fn client_state(sequence: u64, timestamp: u64, key_seed: u8) -> ClientState {
    let (_, public_key) = ed25519_key(key_seed);
    ClientState::new(
        sequence,
        0,
        ConsensusState::new(public_key, "test diversifier".to_string(), timestamp),
        false,
    )
}

/// A header for the given sequence and timestamp, rotating in `new_seed`'s
/// key, signed by `signer_seed`'s key.
fn signed_header(sequence: u64, timestamp: u64, signer_seed: u8, new_seed: u8) -> Header {
    let (signer, _) = ed25519_key(signer_seed);
    let (_, new_public_key) = ed25519_key(new_seed);
    let mut header = Header::new(
        sequence,
        timestamp,
        Vec::new(),
        new_public_key,
        "next diversifier".to_string(),
    );
    let sign_bytes = header.get_sign_bytes();
    let payload = SignatureData::Single { signature: signer.sign(&sign_bytes).to_bytes().to_vec() };
    header.signature = payload.encode_vec();
    header
}

#[test]
fn header_update_advances_sequence_and_rotates_key() {
    let client = SoloMachineClient;
    let state = client_state(5, 100, 1);
    let header = signed_header(5, 150, 1, 2);
    let (_, expected_key) = ed25519_key(2);
    let (new_state, new_consensus) = client
        .check_header_and_update_state(state, header)
        .expect("a valid header must be accepted");
    assert_eq!(new_state.sequence, 6);
    assert_eq!(new_state.consensus_state.public_key, expected_key);
    assert_eq!(new_state.consensus_state.diversifier, "next diversifier");
    assert_eq!(new_state.consensus_state.timestamp, 150);
    assert_eq!(new_consensus, new_state.consensus_state.clone());
}

#[test]
fn header_update_accepts_equal_timestamp() {
    let client = SoloMachineClient;
    let state = client_state(5, 100, 1);
    let header = signed_header(5, 100, 1, 2);
    assert!(client.check_header_and_update_state(state, header).is_ok());
}

#[test]
fn header_with_wrong_sequence_is_rejected() {
    let client = SoloMachineClient;
    let state = client_state(5, 100, 1);
    let header = signed_header(6, 150, 1, 2);
    assert_eq!(
        client.check_header_and_update_state(state, header),
        Err(Kind::InvalidHeader)
    );
}

#[test]
fn header_with_earlier_timestamp_is_rejected() {
    let client = SoloMachineClient;
    let state = client_state(5, 100, 1);
    // Valid signature, but time moves backward.
    let header = signed_header(5, 99, 1, 2);
    assert_eq!(
        client.check_header_and_update_state(state, header),
        Err(Kind::InvalidHeader)
    );
}

#[test]
fn header_signed_by_wrong_key_is_rejected() {
    let client = SoloMachineClient;
    let state = client_state(5, 100, 1);
    let header = signed_header(5, 150, 3, 2);
    assert_eq!(
        client.check_header_and_update_state(state, header),
        Err(Kind::SignatureVerificationFailed)
    );
}

#[test]
fn header_update_verifies_under_previous_key() {
    // The header rotates in key 2; a second update must still be signed by
    // the key trusted before it, never by the header's own new key.
    let client = SoloMachineClient;
    let state = client_state(5, 100, 1);
    let header = signed_header(5, 150, 1, 2);
    let (state, _) = client.check_header_and_update_state(state, header).unwrap();
    let bad = signed_header(6, 160, 3, 3);
    assert_eq!(
        client.check_header_and_update_state(state.clone(), bad),
        Err(Kind::SignatureVerificationFailed)
    );
    let good = signed_header(6, 160, 2, 3);
    assert!(client.check_header_and_update_state(state, good).is_ok());
}

#[test]
fn consensus_state_validate_basic() {
    let (_, pk) = ed25519_key(1);
    let good = ConsensusState::new(pk, "d".to_string(), 10);
    assert_eq!(good.validate_basic(), Ok(()));
    let (_, pk) = ed25519_key(1);
    let zero_time = ConsensusState::new(pk, "d".to_string(), 0);
    assert_eq!(zero_time.validate_basic(), Err(Kind::InvalidConsensusState));
    let (_, pk) = ed25519_key(1);
    let blank = ConsensusState::new(pk, "  \t ".to_string(), 10);
    assert_eq!(blank.validate_basic(), Err(Kind::InvalidConsensusState));
    let empty_key = ConsensusState::new(
        AnyPublicKey::Ed25519(Ed25519PubKey { key: vec![] }),
        "d".to_string(),
        10,
    );
    assert_eq!(empty_key.validate_basic(), Err(Kind::InvalidConsensusState));
}

#[test]
fn diversifier_with_surrounding_spaces_is_accepted() {
    let (_, pk) = ed25519_key(1);
    let padded = ConsensusState::new(pk, "  x  ".to_string(), 10);
    assert_eq!(padded.validate_basic(), Ok(()));
}

#[test]
fn client_state_validate_basic() {
    let good = client_state(1, 10, 1);
    assert_eq!(good.validate_basic(), Ok(()));
    let zero_sequence = client_state(0, 10, 1);
    assert_eq!(zero_sequence.validate_basic(), Err(Kind::InvalidClientState));
    let bad_consensus = client_state(1, 0, 1);
    assert_eq!(bad_consensus.validate_basic(), Err(Kind::InvalidConsensusState));
}

#[test]
fn client_state_accessors() {
    let state = client_state(9, 10, 1);
    assert_eq!(state.client_type(), ClientType::SoloMachine);
    assert_eq!(state.latest_height().revision_number, 0);
    assert_eq!(state.latest_height().revision_height, 9);
    assert!(!state.is_frozen());
    let frozen = ClientState::new(9, 4, client_state(9, 10, 1).consensus_state, false);
    assert!(frozen.is_frozen());
}

#[test]
fn header_validate_basic_and_height() {
    let header = signed_header(5, 150, 1, 2);
    assert_eq!(header.validate_basic(), Ok(()));
    assert_eq!(header.client_type(), ClientType::SoloMachine);
    assert_eq!(header.height().revision_height, 5);
    let zero_sequence = signed_header(0, 150, 1, 2);
    assert_eq!(zero_sequence.validate_basic(), Err(Kind::InvalidHeader));
    let zero_time = signed_header(5, 0, 1, 2);
    assert_eq!(zero_time.validate_basic(), Err(Kind::InvalidHeader));
    let mut blank = signed_header(5, 150, 1, 2);
    blank.new_diversifier = "   ".to_string();
    assert_eq!(blank.validate_basic(), Err(Kind::InvalidHeader));
    let mut empty_key = signed_header(5, 150, 1, 2);
    empty_key.new_public_key = AnyPublicKey::Ed25519(Ed25519PubKey { key: vec![] });
    assert_eq!(empty_key.validate_basic(), Err(Kind::InvalidHeader));
}

fn statement(data: &[u8], timestamp: u64) -> SignatureAndData {
    SignatureAndData {
        signature: vec![9, 9, 9],
        data_type: DataType::Header,
        data: data.to_vec(),
        timestamp,
    }
}

#[test]
fn signature_and_data_validate_basic() {
    assert_eq!(statement(b"abc", 5).validate_basic(), Ok(()));
    let mut no_signature = statement(b"abc", 5);
    no_signature.signature = vec![];
    assert_eq!(no_signature.validate_basic(), Err(Kind::InvalidSignatureAndData));
    let no_data = statement(b"", 5);
    assert_eq!(no_data.validate_basic(), Err(Kind::InvalidSignatureAndData));
    let mut unspecified = statement(b"abc", 5);
    unspecified.data_type = DataType::UninitializedUnspecified;
    assert_eq!(unspecified.validate_basic(), Err(Kind::InvalidSignatureAndData));
    let zero_time = statement(b"abc", 0);
    assert_eq!(zero_time.validate_basic(), Err(Kind::InvalidSignatureAndData));
}

fn misbehaviour(one: SignatureAndData, two: SignatureAndData) -> Misbehaviour {
    Misbehaviour { client_id: "solo-client-1".to_string(), sequence: 7, signature_one: one, signature_two: two }
}

#[test]
fn misbehaviour_with_identical_data_is_rejected() {
    let mut two = statement(b"same bytes", 6);
    two.signature = vec![8, 8, 8];
    let m = misbehaviour(statement(b"same bytes", 5), two);
    assert_eq!(m.validate_basic(), Err(Kind::InvalidMisbehaviour));
}

#[test]
fn misbehaviour_with_identical_statements_is_rejected() {
    let m = misbehaviour(statement(b"same bytes", 5), statement(b"same bytes", 5));
    assert_eq!(m.validate_basic(), Err(Kind::InvalidMisbehaviour));
}

#[test]
fn misbehaviour_with_differing_data_is_accepted() {
    let m = misbehaviour(statement(b"first statement", 5), statement(b"second statement", 6));
    assert_eq!(m.validate_basic(), Ok(()));
    assert_eq!(m.client_type(), ClientType::SoloMachine);
    assert_eq!(m.height().revision_height, 7);
}

#[test]
fn misbehaviour_with_zero_sequence_is_rejected() {
    let mut m = misbehaviour(statement(b"first", 5), statement(b"second", 6));
    m.sequence = 0;
    assert_eq!(m.validate_basic(), Err(Kind::InvalidMisbehaviour));
}

#[test]
fn misbehaviour_with_invalid_statement_is_rejected() {
    let m = misbehaviour(statement(b"first", 0), statement(b"second", 6));
    assert_eq!(m.validate_basic(), Err(Kind::InvalidMisbehaviour));
}

#[test]
fn consensus_state_wire_round_trip() {
    let (_, pk) = ed25519_key(4);
    let cs = ConsensusState::new(pk, "diversifier".to_string(), 77);
    let encoded = cs.encode_vec();
    let decoded = ConsensusState::decode_vec(&encoded).expect("canonical encoding must decode");
    assert_eq!(decoded, cs);
}

#[test]
fn consensus_state_with_defaults_wire_round_trip() {
    let (_, pk) = ed25519_key(4);
    let cs = ConsensusState::new(pk, String::new(), 0);
    let encoded = cs.encode_vec();
    let decoded = ConsensusState::decode_vec(&encoded).expect("canonical encoding must decode");
    assert_eq!(decoded, cs);
}

#[test]
fn client_state_wire_round_trip() {
    let state = client_state(12, 99, 3);
    let encoded = state.encode_vec();
    let decoded = ClientState::decode_vec(&encoded).expect("canonical encoding must decode");
    assert_eq!(decoded, state);
    let frozen = ClientState::new(3, 2, client_state(3, 9, 3).consensus_state, true);
    let encoded = frozen.encode_vec();
    let decoded = ClientState::decode_vec(&encoded).expect("canonical encoding must decode");
    assert_eq!(decoded, frozen);
}

#[test]
fn client_state_decode_without_consensus_state_is_rejected() {
    // A lone sequence field, no embedded consensus state.
    let bytes = vec![0x08, 0x05];
    assert_eq!(ClientState::decode_vec(&bytes), Err(Kind::InvalidRawClientState));
}

#[test]
fn header_wire_round_trip() {
    let header = signed_header(5, 150, 1, 2);
    let encoded = header.encode_vec();
    let decoded = Header::decode_vec(&encoded).expect("canonical encoding must decode");
    assert_eq!(decoded, header);
}

#[test]
fn sign_bytes_are_deterministic_and_bind_the_header() {
    let a = signed_header(5, 150, 1, 2);
    let b = signed_header(5, 150, 1, 2);
    assert_eq!(a.get_sign_bytes(), b.get_sign_bytes());
    let different_sequence = signed_header(6, 150, 1, 2);
    assert_ne!(a.get_sign_bytes(), different_sequence.get_sign_bytes());
    let different_key = signed_header(5, 150, 1, 3);
    assert_ne!(a.get_sign_bytes(), different_key.get_sign_bytes());
}

#[test]
fn data_type_wire_values_round_trip() {
    let all = [
        DataType::UninitializedUnspecified,
        DataType::ClientState,
        DataType::ConsensusState,
        DataType::ConnectionState,
        DataType::ChannelState,
        DataType::PacketCommitment,
        DataType::PacketAcknowledgement,
        DataType::PacketReceiptAbsence,
        DataType::NextSequenceRecv,
        DataType::Header,
    ];
    for (i, d) in all.iter().enumerate() {
        assert_eq!(d.wire_value(), i as u64);
        assert_eq!(DataType::from_wire_value(i as u64), Some(*d));
    }
    assert_eq!(DataType::from_wire_value(10), None);
}

#[test]
fn consensus_state_decode_without_public_key_is_rejected() {
    // A lone diversifier field, no public key.
    let bytes = vec![0x12u8, 0x01, b'd'];
    assert_eq!(
        ConsensusState::decode_vec(&bytes),
        Err(Kind::InvalidRawConsensusState)
    );
}

#[test]
fn header_decode_without_public_key_is_rejected() {
    // A lone sequence field, no new public key.
    let bytes = vec![0x08u8, 0x05];
    assert_eq!(Header::decode_vec(&bytes), Err(Kind::InvalidRawHeader));
}

#[test]
fn signature_and_data_wire_round_trip() {
    let s = statement(b"signed bytes", 44);
    let encoded = s.encode_vec();
    let decoded = SignatureAndData::decode_vec(&encoded).expect("canonical encoding must decode");
    assert_eq!(decoded, s);
}

#[test]
fn misbehaviour_wire_round_trip() {
    let m = misbehaviour(statement(b"first statement", 5), statement(b"second statement", 6));
    let encoded = m.encode_vec();
    let decoded = Misbehaviour::decode_vec(&encoded).expect("canonical encoding must decode");
    assert_eq!(decoded, m);
}

#[test]
fn misbehaviour_decode_without_statements_is_rejected() {
    // A lone sequence field, no signed statements.
    let bytes = vec![0x10u8, 0x07];
    assert_eq!(Misbehaviour::decode_vec(&bytes), Err(Kind::InvalidRawMisbehaviour));
}

#[test]
fn signature_and_data_golden_encoding() {
    let s = SignatureAndData {
        signature: vec![1],
        data_type: DataType::Header,
        data: vec![2],
        timestamp: 5,
    };
    // Fields in ascending order: signature, domain tag (9), data, timestamp.
    assert_eq!(
        s.encode_vec(),
        vec![0x0A, 0x01, 0x01, 0x10, 0x09, 0x1A, 0x01, 0x02, 0x20, 0x05]
    );
}

#[test]
fn public_key_golden_envelope_prefix() {
    let pk = AnyPublicKey::Ed25519(Ed25519PubKey { key: vec![0xAB; 32] });
    let encoded = pk.encode_vec();
    // Field 1: the algorithm tag as a string.
    assert_eq!(encoded[0], 0x0A);
    assert_eq!(encoded[1] as usize, "/cosmos.crypto.ed25519.PubKey".len());
    assert_eq!(&encoded[2..31], "/cosmos.crypto.ed25519.PubKey".as_bytes());
    // Field 2: the encoded key message, itself a single bytes field.
    assert_eq!(&encoded[31..36], &[0x12, 0x22, 0x0A, 0x20, 0xAB]);
}
