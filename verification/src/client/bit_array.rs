//! A packed bitmap over a known bit length, used to record which signers,
//! among an ordered list of public keys, contributed a signature.
//!
//! Bit `i` lives at byte `i / 8`, bit position `7 - (i % 8)` (MSB-first).
//! The logical bit length is not redundant with the byte count: the number of
//! bits stored in the final byte is carried explicitly.

use vstd::prelude::*;

verus! {

/// True iff bit `k` (MSB-first, `0 <= k < 8`) of `b` is set.
pub open spec fn byte_bit(b: u8, k: int) -> bool {
    b & (0x80u8 >> (k as u8)) != 0
}

/// Number of set bits among the first `i` positions of `s`.  Positions at or
/// beyond `s.len()` read as false, so the count saturates instead of erroring.
pub open spec fn count_true_prefix(s: Seq<bool>, i: int) -> int
    decreases i,
{
    if i <= 0 {
        0
    } else {
        count_true_prefix(s, i - 1) + if 0 <= i - 1 < s.len() && s[i - 1] {
            1int
        } else {
            0int
        }
    }
}

/// The saturating prefix count never decreases as the prefix grows.
pub proof fn lemma_count_true_prefix_monotonic(s: Seq<bool>, i: int, j: int)
    requires
        i <= j,
    ensures
        count_true_prefix(s, i) <= count_true_prefix(s, j),
    decreases j - i,
{
    if i < j {
        lemma_count_true_prefix_monotonic(s, i, j - 1);
    }
}

proof fn lemma_or_mask(b: u8, k: u8, m: u8)
    requires
        k < 8,
        m < 8,
    ensures
        byte_bit(b | (0x80u8 >> k), m as int) == (m == k || byte_bit(b, m as int)),
{
    assert(k < 8 && m < 8 ==> (((b | (0x80u8 >> k)) & (0x80u8 >> m) != 0) == (m == k || (b & (
    0x80u8 >> m) != 0)))) by (bit_vector);
}

proof fn lemma_andnot_mask(b: u8, k: u8, m: u8)
    requires
        k < 8,
        m < 8,
    ensures
        byte_bit(b & !(0x80u8 >> k), m as int) == (m != k && byte_bit(b, m as int)),
{
    assert(k < 8 && m < 8 ==> (((b & !(0x80u8 >> k)) & (0x80u8 >> m) != 0) == (m != k && (b & (
    0x80u8 >> m) != 0)))) by (bit_vector);
}

proof fn lemma_zero_byte_bit(k: int)
    requires
        0 <= k < 8,
    ensures
        !byte_bit(0u8, k),
{
    let ku = k as u8;
    assert(0u8 & (0x80u8 >> ku) == 0) by (bit_vector);
}

/// The logical bit length encoded by a byte count and an extra-bits count.
pub open spec fn spec_bits_len(extra_bits_stored: u32, elems: Seq<u8>) -> int {
    if extra_bits_stored == 0 {
        elems.len() as int * 8
    } else {
        (elems.len() as int - 1) * 8 + extra_bits_stored
    }
}

/// Structural validity of a bitmap's raw fields: fewer than eight extra
/// bits, a final byte to hold them when there are any, a byte count whose
/// bit count fits the address space, and no set bit beyond the logical
/// length.
pub open spec fn spec_bits_wf(extra_bits_stored: u32, elems: Seq<u8>) -> bool {
    &&& extra_bits_stored < 8
    &&& extra_bits_stored != 0 ==> elems.len() > 0
    &&& 8 * elems.len() <= usize::MAX
    &&& forall|i: int|
        spec_bits_len(extra_bits_stored, elems) <= i < 8 * elems.len() ==> !(#[trigger] byte_bit(
            elems[i / 8],
            i % 8,
        ))
}

/// The bits a byte count and extra-bits count expose, MSB-first.
pub open spec fn spec_bits_view(extra_bits_stored: u32, elems: Seq<u8>) -> Seq<bool> {
    Seq::new(
        spec_bits_len(extra_bits_stored, elems) as nat,
        |i: int| byte_bit(elems[i / 8], i % 8),
    )
}

/// A packed, MSB-first bitmap with an explicit logical bit length.
#[derive(Clone, Debug, PartialEq, Eq)]
pub struct BitArray {
    /// Number of logical bits stored in the final backing byte (0 means the
    /// final byte is full).
    pub extra_bits_stored: u32,
    /// The packed backing bytes, MSB-first within each byte.
    pub elems: Vec<u8>,
}

impl View for BitArray {
    type V = Seq<bool>;

    open spec fn view(&self) -> Seq<bool> {
        spec_bits_view(self.extra_bits_stored, self.elems@)
    }
}

impl BitArray {
    /// The logical bit length, reconstructed from the byte count and the
    /// number of bits stored in the final byte.
    pub open spec fn spec_len(&self) -> int {
        spec_bits_len(self.extra_bits_stored, self.elems@)
    }

    /// Structural invariant: `ceil(len / 8)` backing bytes, and the bits of
    /// the final byte beyond the logical length are never set.
    pub open spec fn well_formed(&self) -> bool {
        spec_bits_wf(self.extra_bits_stored, self.elems@)
    }

    /// Allocates `ceil(num_bits / 8)` zero bytes holding `num_bits` logical
    /// bits, all false.
    pub fn new(num_bits: usize) -> (r: BitArray)
        requires
            num_bits <= usize::MAX - 7,
        ensures
            r.well_formed(),
            r@ =~= Seq::new(num_bits as nat, |i: int| false),
            r@.len() == num_bits,
    {
        let extra_bits_stored = num_bits % 8;
        let mut elem_size = num_bits / 8;
        if extra_bits_stored > 0 {
            elem_size = elem_size + 1;
        }
        let mut elems: Vec<u8> = Vec::new();
        while elems.len() < elem_size
            invariant
                elems@.len() <= elem_size,
                forall|i: int| 0 <= i < elems@.len() ==> elems@[i] == 0u8,
            decreases elem_size - elems@.len(),
        {
            elems.push(0u8);
        }
        let r = BitArray { extra_bits_stored: extra_bits_stored as u32, elems };
        proof {
            assert(num_bits == 8 * (num_bits / 8) + num_bits % 8) by (nonlinear_arith);
            assert forall|i: int|
                #![trigger byte_bit(r.elems@[i / 8], i % 8)]
                0 <= i < 8 * r.elems@.len() implies !byte_bit(r.elems@[i / 8], i % 8) by {
                let n = r.elems@.len() as int;
                assert(0 <= i < 8 * n ==> 0 <= i / 8 < n && 0 <= i % 8 < 8) by (nonlinear_arith);
                lemma_zero_byte_bit(i % 8);
            }
            assert(r.spec_len() == num_bits);
            assert(r@.len() == num_bits);
        }
        r
    }

    /// Returns the logical bit length.
    pub fn len(&self) -> (r: usize)
        requires
            self.well_formed(),
        ensures
            r == self@.len(),
    {
        if self.extra_bits_stored == 0 {
            return self.elems.len() * 8;
        }
        (self.elems.len() - 1) * 8 + (self.extra_bits_stored as usize)
    }

    /// Returns bit `index`, or false (not an error) when `index` is out of
    /// range.
    pub fn get(&self, index: usize) -> (r: bool)
        requires
            self.well_formed(),
        ensures
            r == (index < self@.len() && self@[index as int]),
    {
        if index >= self.len() {
            return false;
        }
        proof {
            let ii = index as int;
            let n = self.elems@.len() as int;
            assert(0 <= ii < 8 * n ==> 0 <= ii / 8 < n && 0 <= ii % 8 < 8) by (nonlinear_arith);
        }
        (self.elems[index / 8] & (0x80u8 >> ((index % 8) as u8))) > 0
    }

    /// Sets or clears bit `index` and returns true; when `index` is out of
    /// range, leaves the state unchanged and returns false.
    pub fn set(&mut self, index: usize, value: bool) -> (r: bool)
        requires
            old(self).well_formed(),
        ensures
            final(self).well_formed(),
            final(self)@.len() == old(self)@.len(),
            index < old(self)@.len() ==> r && final(self)@ =~= old(self)@.update(
                index as int,
                value,
            ),
            index >= old(self)@.len() ==> !r && *final(self) == *old(self),
    {
        if index >= self.len() {
            return false;
        }
        let byte_index = index / 8;
        proof {
            let ii = index as int;
            let n = self.elems@.len() as int;
            assert(0 <= ii < 8 * n ==> 0 <= ii / 8 < n && 0 <= ii % 8 < 8) by (nonlinear_arith);
        }
        let mask = 0x80u8 >> ((index % 8) as u8);
        let b = self.elems[byte_index];
        if value {
            self.elems.set(byte_index, b | mask);
        } else {
            self.elems.set(byte_index, b & !mask);
        }
        proof {
            let olds = old(self);
            assert forall|j: int|
                #![trigger byte_bit(self.elems@[j / 8], j % 8)]
                0 <= j < 8 * self.elems@.len() implies byte_bit(
                self.elems@[j / 8],
                j % 8,
            ) == if j == index {
                value
            } else {
                byte_bit(olds.elems@[j / 8], j % 8)
            } by {
                let n = self.elems@.len() as int;
                let ii = index as int;
                assert(0 <= j < 8 * n ==> 0 <= j / 8 < n && 0 <= j % 8 < 8) by (nonlinear_arith);
                if j / 8 == byte_index as int {
                    assert(j / 8 == ii / 8 && 0 <= j && 0 <= ii ==> (j == ii <==> j % 8 == ii % 8))
                        by (nonlinear_arith);
                    if value {
                        lemma_or_mask(b, ((index as int) % 8) as u8, (j % 8) as u8);
                    } else {
                        lemma_andnot_mask(b, ((index as int) % 8) as u8, (j % 8) as u8);
                    }
                } else {
                    assert(j != index);
                }
            }
        }
        true
    }

    /// Counts the set bits in `[0, index)`; positions at or beyond the length
    /// read as false, so the count saturates rather than erroring.
    pub fn num_true_bits_before(&self, index: usize) -> (r: usize)
        requires
            self.well_formed(),
        ensures
            r == count_true_prefix(self@, index as int),
    {
        let mut num_true_values: usize = 0;
        let mut i: usize = 0;
        while i < index
            invariant
                self.well_formed(),
                i <= index,
                num_true_values <= i,
                num_true_values == count_true_prefix(self@, i as int),
            decreases index - i,
        {
            if self.get(i) {
                num_true_values = num_true_values + 1;
            }
            i = i + 1;
        }
        num_true_values
    }
}

} // verus!
