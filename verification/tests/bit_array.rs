use solo_machine::client::bit_array::BitArray;
use solo_machine::client::error::Kind;

#[test]
fn new_has_requested_length() {
    for n in [0usize, 1, 7, 8, 9, 13, 64] {
        let b = BitArray::new(n);
        assert_eq!(b.len(), n);
        for i in 0..n {
            assert!(!b.get(i));
        }
    }
}

#[test]
fn set_then_get_true() {
    let mut b = BitArray::new(13);
    assert!(b.set(5, true));
    assert!(b.get(5));
}

#[test]
fn set_then_get_false() {
    let mut b = BitArray::new(13);
    assert!(b.set(5, true));
    assert!(b.set(5, false));
    assert!(!b.get(5));
}

#[test]
fn set_out_of_range_leaves_state_unchanged() {
    let mut b = BitArray::new(4);
    assert!(b.set(1, true));
    let before = b.clone();
    assert!(!b.set(4, true));
    assert!(!b.set(100, true));
    assert_eq!(b, before);
    assert!(!b.get(4));
    assert!(!b.get(100));
}

#[test]
fn msb_first_packing() {
    let mut b = BitArray::new(3);
    assert!(b.set(0, true));
    // Bit 0 lives at the most significant position of the first byte.
    assert_eq!(b.elems, vec![0b1000_0000]);
    assert!(b.set(2, true));
    assert_eq!(b.elems, vec![0b1010_0000]);
}

#[test]
fn num_true_bits_before_zero_is_zero() {
    let mut b = BitArray::new(9);
    b.set(0, true);
    assert_eq!(b.num_true_bits_before(0), 0);
}

#[test]
fn num_true_bits_before_counts_prefix() {
    let mut b = BitArray::new(9);
    b.set(0, true);
    b.set(3, true);
    b.set(8, true);
    assert_eq!(b.num_true_bits_before(1), 1);
    assert_eq!(b.num_true_bits_before(3), 1);
    assert_eq!(b.num_true_bits_before(4), 2);
    assert_eq!(b.num_true_bits_before(9), 3);
}

#[test]
fn num_true_bits_before_is_monotonic_and_saturates() {
    let mut b = BitArray::new(9);
    b.set(2, true);
    b.set(7, true);
    let mut previous = 0;
    for i in 0..20 {
        let count = b.num_true_bits_before(i);
        assert!(count >= previous);
        previous = count;
    }
    // Positions at or beyond the length read as false: the count saturates.
    assert_eq!(b.num_true_bits_before(20), 2);
}

#[test]
fn bit_array_wire_round_trip() {
    let mut b = BitArray::new(11);
    b.set(0, true);
    b.set(9, true);
    let encoded = b.encode_vec();
    let decoded = BitArray::decode_vec(&encoded).expect("canonical encoding must decode");
    assert_eq!(decoded, b);
}

#[test]
fn bit_array_empty_wire_round_trip() {
    let b = BitArray::new(0);
    let encoded = b.encode_vec();
    assert!(encoded.is_empty());
    let decoded = BitArray::decode_vec(&encoded).expect("canonical encoding must decode");
    assert_eq!(decoded, b);
}

#[test]
fn bit_array_decode_rejects_set_padding_bits() {
    // One logical bit, but the second bit of the final byte is set.
    let malformed = BitArray { extra_bits_stored: 1, elems: vec![0b0100_0000] };
    let encoded = malformed.encode_vec();
    assert_eq!(BitArray::decode_vec(&encoded), Err(Kind::InvalidSignatureData));
}

#[test]
fn bit_array_decode_rejects_too_many_extra_bits() {
    let malformed = BitArray { extra_bits_stored: 9, elems: vec![0, 0] };
    let encoded = malformed.encode_vec();
    assert_eq!(BitArray::decode_vec(&encoded), Err(Kind::InvalidSignatureData));
}

#[test]
fn bit_array_golden_encoding() {
    let mut b = BitArray::new(3);
    b.set(0, true);
    b.set(2, true);
    // Field 1 (extra bits stored): varint 3.  Field 2 (packed bytes): one
    // byte, bits 0 and 2 set MSB-first.
    assert_eq!(b.encode_vec(), vec![0x08, 0x03, 0x12, 0x01, 0b1010_0000]);
}
