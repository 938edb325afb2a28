use ed25519_dalek::Signer as _;
use k256::ecdsa::signature::Signer as _;
use solo_machine::client::bit_array::BitArray;
use solo_machine::client::crypto::{
    verify_signature, AnyPublicKey, Ed25519PubKey, MultiSignatureData, MultisigPubKey,
    Secp256k1PubKey, SignatureData,
};
use solo_machine::client::error::Kind;

fn ed25519_key(seed: u8) -> (ed25519_dalek::SigningKey, AnyPublicKey) {
    let sk = ed25519_dalek::SigningKey::from_bytes(&[seed; 32]);
    let pk = AnyPublicKey::Ed25519(Ed25519PubKey { key: sk.verifying_key().to_bytes().to_vec() });
    (sk, pk)
}

fn secp256k1_key(seed: u8) -> (k256::ecdsa::SigningKey, AnyPublicKey) {
    let sk = k256::ecdsa::SigningKey::from_slice(&[seed; 32]).expect("valid scalar");
    let pk = AnyPublicKey::Secp256k1(Secp256k1PubKey {
        key: sk.verifying_key().to_sec1_bytes().to_vec(),
    });
    (sk, pk)
}

fn ed25519_sign(sk: &ed25519_dalek::SigningKey, msg: &[u8]) -> SignatureData {
    SignatureData::Single { signature: sk.sign(msg).to_bytes().to_vec() }
}

fn secp256k1_sign(sk: &k256::ecdsa::SigningKey, msg: &[u8]) -> SignatureData {
    let sig: k256::ecdsa::Signature = sk.sign(msg);
    SignatureData::Single { signature: sig.to_bytes().to_vec() }
}

#[test]
fn secp256k1_valid_signature_verifies() {
    let (sk, pk) = secp256k1_key(11);
    let msg = b"an update to the trusted state".to_vec();
    let payload = secp256k1_sign(&sk, &msg);
    assert_eq!(verify_signature(&pk, &msg, &payload), Ok(()));
}

#[test]
fn secp256k1_wrong_message_fails() {
    let (sk, pk) = secp256k1_key(11);
    let msg = b"an update to the trusted state".to_vec();
    let payload = secp256k1_sign(&sk, &msg);
    let other = b"a different statement".to_vec();
    assert_eq!(
        verify_signature(&pk, &other, &payload),
        Err(Kind::SignatureVerificationFailed)
    );
}

#[test]
fn secp256k1_malformed_key_is_invalid_pub_key() {
    let pk = AnyPublicKey::Secp256k1(Secp256k1PubKey { key: vec![1, 2, 3] });
    let (sk, _) = secp256k1_key(11);
    let msg = b"message".to_vec();
    let payload = secp256k1_sign(&sk, &msg);
    assert_eq!(verify_signature(&pk, &msg, &payload), Err(Kind::InvalidPubKey));
}

#[test]
fn ed25519_valid_signature_verifies() {
    let (sk, pk) = ed25519_key(42);
    let msg = b"an update to the trusted state".to_vec();
    let payload = ed25519_sign(&sk, &msg);
    assert_eq!(verify_signature(&pk, &msg, &payload), Ok(()));
}

#[test]
fn ed25519_wrong_signer_fails() {
    let (_, pk) = ed25519_key(42);
    let (other_sk, _) = ed25519_key(43);
    let msg = b"an update to the trusted state".to_vec();
    let payload = ed25519_sign(&other_sk, &msg);
    assert_eq!(
        verify_signature(&pk, &msg, &payload),
        Err(Kind::SignatureVerificationFailed)
    );
}

#[test]
fn ed25519_signature_must_be_64_bytes() {
    let (_, pk) = ed25519_key(42);
    let msg = b"message".to_vec();
    let payload = SignatureData::Single { signature: vec![0u8; 63] };
    assert_eq!(verify_signature(&pk, &msg, &payload), Err(Kind::InvalidSignatureData));
}

#[test]
fn mismatched_pairing_is_invalid_signature_type() {
    let (sk, pk) = ed25519_key(42);
    let msg = b"message".to_vec();
    let multi_payload = SignatureData::Multi(MultiSignatureData {
        bit_array: BitArray::new(1),
        signatures: vec![ed25519_sign(&sk, &msg)],
    });
    assert_eq!(verify_signature(&pk, &msg, &multi_payload), Err(Kind::InvalidSignatureType));
}

fn three_member_multisig(threshold: u32) -> (Vec<ed25519_dalek::SigningKey>, AnyPublicKey) {
    let (sk_a, pk_a) = ed25519_key(1);
    let (sk_b, pk_b) = ed25519_key(2);
    let (sk_c, pk_c) = ed25519_key(3);
    let multisig = AnyPublicKey::Multisig(MultisigPubKey {
        threshold,
        public_keys: vec![pk_a, pk_b, pk_c],
    });
    (vec![sk_a, sk_b, sk_c], multisig)
}

fn bitmap(bits: &[bool]) -> BitArray {
    let mut b = BitArray::new(bits.len());
    for (i, &v) in bits.iter().enumerate() {
        assert!(b.set(i, v));
    }
    b
}

#[test]
fn multisig_ascending_order_verifies() {
    let (sks, multisig) = three_member_multisig(2);
    let msg = b"threshold-signed statement".to_vec();
    let payload = SignatureData::Multi(MultiSignatureData {
        bit_array: bitmap(&[true, false, true]),
        signatures: vec![ed25519_sign(&sks[0], &msg), ed25519_sign(&sks[2], &msg)],
    });
    assert_eq!(verify_signature(&multisig, &msg, &payload), Ok(()));
}

#[test]
fn multisig_swapped_order_fails() {
    let (sks, multisig) = three_member_multisig(2);
    let msg = b"threshold-signed statement".to_vec();
    let payload = SignatureData::Multi(MultiSignatureData {
        bit_array: bitmap(&[true, false, true]),
        signatures: vec![ed25519_sign(&sks[2], &msg), ed25519_sign(&sks[0], &msg)],
    });
    assert_eq!(
        verify_signature(&multisig, &msg, &payload),
        Err(Kind::SignatureVerificationFailed)
    );
}

#[test]
fn multisig_too_few_set_bits_fails_before_crypto() {
    let (sks, multisig) = three_member_multisig(2);
    let msg = b"threshold-signed statement".to_vec();
    // Two signatures provided, but only one signer bit set: rejected as a
    // signature-count error, with no cryptographic work attempted.
    let payload = SignatureData::Multi(MultiSignatureData {
        bit_array: bitmap(&[true, false, false]),
        signatures: vec![ed25519_sign(&sks[0], &msg), ed25519_sign(&sks[1], &msg)],
    });
    assert_eq!(verify_signature(&multisig, &msg, &payload), Err(Kind::InvalidSignatureData));
}

#[test]
fn multisig_too_few_signatures_fails() {
    let (sks, multisig) = three_member_multisig(2);
    let msg = b"threshold-signed statement".to_vec();
    let payload = SignatureData::Multi(MultiSignatureData {
        bit_array: bitmap(&[true, false, true]),
        signatures: vec![ed25519_sign(&sks[0], &msg)],
    });
    assert_eq!(verify_signature(&multisig, &msg, &payload), Err(Kind::InvalidSignatureData));
}

#[test]
fn multisig_bitmap_size_mismatch_fails() {
    let (sks, multisig) = three_member_multisig(2);
    let msg = b"threshold-signed statement".to_vec();
    let payload = SignatureData::Multi(MultiSignatureData {
        bit_array: bitmap(&[true, true]),
        signatures: vec![ed25519_sign(&sks[0], &msg), ed25519_sign(&sks[1], &msg)],
    });
    assert_eq!(verify_signature(&multisig, &msg, &payload), Err(Kind::InvalidSignatureData));
}

#[test]
fn nested_multisig_verifies() {
    let (sk_a, pk_a) = ed25519_key(7);
    let (sk_b, pk_b) = ed25519_key(8);
    let inner = AnyPublicKey::Multisig(MultisigPubKey {
        threshold: 1,
        public_keys: vec![pk_a, pk_b],
    });
    let (sk_c, pk_c) = ed25519_key(9);
    let outer = AnyPublicKey::Multisig(MultisigPubKey {
        threshold: 2,
        public_keys: vec![inner, pk_c],
    });
    let msg = b"nested threshold statement".to_vec();
    let _ = sk_b;
    let inner_payload = SignatureData::Multi(MultiSignatureData {
        bit_array: bitmap(&[true, false]),
        signatures: vec![ed25519_sign(&sk_a, &msg)],
    });
    let payload = SignatureData::Multi(MultiSignatureData {
        bit_array: bitmap(&[true, true]),
        signatures: vec![inner_payload, ed25519_sign(&sk_c, &msg)],
    });
    assert_eq!(verify_signature(&outer, &msg, &payload), Ok(()));
}

#[test]
fn is_empty_on_each_variant() {
    assert!(AnyPublicKey::Secp256k1(Secp256k1PubKey { key: vec![] }).is_empty());
    assert!(!AnyPublicKey::Ed25519(Ed25519PubKey { key: vec![1] }).is_empty());
    assert!(AnyPublicKey::Multisig(MultisigPubKey { threshold: 0, public_keys: vec![] })
        .is_empty());
    let (_, pk) = ed25519_key(1);
    assert!(!AnyPublicKey::Multisig(MultisigPubKey { threshold: 1, public_keys: vec![pk] })
        .is_empty());
}

#[test]
fn public_key_wire_round_trip_each_variant() {
    let (_, secp) = secp256k1_key(5);
    let (_, ed) = ed25519_key(6);
    let (_, member) = ed25519_key(7);
    let multisig = AnyPublicKey::Multisig(MultisigPubKey {
        threshold: 1,
        public_keys: vec![member],
    });
    for pk in [secp, ed, multisig] {
        let encoded = pk.encode_vec();
        let decoded = AnyPublicKey::decode_vec(&encoded).expect("canonical encoding must decode");
        assert_eq!(decoded, pk);
    }
}

#[test]
fn nested_multisig_wire_round_trip() {
    let (_, pk_a) = ed25519_key(1);
    let (_, pk_b) = secp256k1_key(2);
    let inner = AnyPublicKey::Multisig(MultisigPubKey {
        threshold: 1,
        public_keys: vec![pk_a, pk_b],
    });
    let (_, pk_c) = ed25519_key(3);
    let outer = AnyPublicKey::Multisig(MultisigPubKey {
        threshold: 2,
        public_keys: vec![inner, pk_c],
    });
    let encoded = outer.encode_vec();
    let decoded = AnyPublicKey::decode_vec(&encoded).expect("canonical encoding must decode");
    assert_eq!(decoded, outer);
}

#[test]
fn unknown_type_url_is_rejected() {
    let (_, pk) = ed25519_key(6);
    let mut encoded = pk.encode_vec();
    // The first field is the type tag; corrupt one byte of its payload.
    encoded[2] ^= 0x01;
    assert_eq!(AnyPublicKey::decode_vec(&encoded), Err(Kind::UnknownPubKeyType));
}

#[test]
fn signature_payload_wire_round_trip() {
    let (sk, _) = ed25519_key(21);
    let msg = b"payload".to_vec();
    let single = ed25519_sign(&sk, &msg);
    let multi = SignatureData::Multi(MultiSignatureData {
        bit_array: bitmap(&[true, false]),
        signatures: vec![ed25519_sign(&sk, &msg)],
    });
    for payload in [single, multi] {
        let encoded = payload.encode_vec();
        let decoded =
            SignatureData::decode_vec(&encoded).expect("canonical encoding must decode");
        assert_eq!(decoded, payload);
    }
}

#[test]
fn empty_signature_bytes_are_a_missing_payload() {
    let empty: Vec<u8> = vec![];
    assert_eq!(SignatureData::decode_vec(&empty), Err(Kind::InvalidHeader));
}

#[test]
fn truncated_key_envelope_is_invalid_raw_pub_key() {
    // A type-tag field announcing a payload that is not there.
    let bytes = vec![0x0Au8, 0x05, b'/'];
    assert_eq!(AnyPublicKey::decode_vec(&bytes), Err(Kind::InvalidRawPubKey));
}
