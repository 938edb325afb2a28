//! Canonical wire codec for the client substrate: the signer bitmap and the
//! public-key union carried in its typed envelope.

use vstd::prelude::*;
use vstd::string::StrSliceExecFns;

use crate::client::bit_array::{byte_bit, spec_bits_len, spec_bits_wf, BitArray};
use crate::client::error::Kind;
use crate::wire::{
    encode_field_bytes, encode_field_varint, lemma_dec_opt_bytes, lemma_dec_opt_varint,
    lemma_varint_round_trip, read_opt_bytes, read_opt_varint, spec_dec_opt_bytes,
    spec_dec_opt_varint, spec_field_bytes, spec_field_varint, spec_varint,
};
use crate::client::crypto::{
    lemma_pk_views_index, lemma_pk_views_len, lemma_pk_views_push, spec_pk_view,
    spec_pk_views, AnyPublicKey,
    Ed25519PubKey, MultisigPubKey, PubKeyView, Secp256k1PubKey,
};
use crate::wire::{
    decode_varint, encode_field_msg, lemma_dec_field_msg, lemma_dec_opt_bytes_bounds,
    lemma_dec_opt_varint_bounds, lemma_read_len_delim_bounds,
    lemma_varint_decode_bounds, read_len_delim, spec_field_msg, spec_read_len_delim,
    spec_varint_decode,
};
use vstd::utf8::{
    decode_utf8, encode_utf8, encode_utf8_decode_utf8, encode_utf8_valid_utf8, valid_utf8,
};

verus! {

/// Canonical wire encoding of a bitmap's raw fields: the extra-bits count,
/// then the packed bytes.
pub open spec fn spec_enc_bit_array(extra_bits_stored: u32, elems: Seq<u8>) -> Seq<u8> {
    spec_field_varint(8, extra_bits_stored as u64) + spec_field_bytes(18, elems)
}

/// Canonical wire parsing of a bitmap's raw fields.
pub open spec fn spec_dec_bit_array(s: Seq<u8>) -> Option<(u32, Seq<u8>)> {
    match spec_dec_opt_varint(s, 8) {
        Some(er) => {
            if er.0 > u32::MAX as u64 {
                None
            } else {
                match spec_dec_opt_bytes(er.1, 18) {
                    Some(br) => {
                        if br.1.len() == 0 {
                            Some((er.0 as u32, br.0))
                        } else {
                            None
                        }
                    },
                    None => None,
                }
            }
        },
        None => None,
    }
}

/// An encoded bitmap parses back to exactly its raw fields: the wire
/// round-trip for bitmaps.
pub proof fn lemma_bit_array_round_trip(extra_bits_stored: u32, elems: Seq<u8>)
    requires
        elems.len() <= u64::MAX,
    ensures
        spec_dec_bit_array(spec_enc_bit_array(extra_bits_stored, elems)) == Some(
            (extra_bits_stored, elems),
        ),
{
    let f2 = spec_field_bytes(18, elems);
    if elems.len() != 0 {
        lemma_varint_round_trip(18, spec_varint(elems.len() as u64) + elems);
        assert(f2 =~= spec_varint(18) + (spec_varint(elems.len() as u64) + elems));
    }
    lemma_dec_opt_varint(8, extra_bits_stored as u64, f2);
    lemma_dec_opt_bytes(18, elems, Seq::empty());
    assert(spec_field_bytes(18, elems) + Seq::<u8>::empty() =~= f2);
}

impl BitArray {
    /// Canonical wire encoding of this bitmap.
    pub fn encode_vec(&self) -> (r: Vec<u8>)
        ensures
            r@ == spec_enc_bit_array(self.extra_bits_stored, self.elems@),
    {
        let mut out: Vec<u8> = Vec::new();
        encode_field_varint(&mut out, 8, self.extra_bits_stored as u64);
        encode_field_bytes(&mut out, 18, &self.elems);
        proof {
            assert(out@ =~= spec_enc_bit_array(self.extra_bits_stored, self.elems@));
        }
        out
    }

    /// Parses a bitmap from its canonical wire encoding.  Raw fields that
    /// are not structurally valid (too many extra bits, a missing final
    /// byte, or a set bit beyond the logical length) are rejected.
    pub fn decode_vec(bytes: &Vec<u8>) -> (r: Result<BitArray, Kind>)
        ensures
            match r {
                Ok(b) => {
                    &&& spec_dec_bit_array(bytes@) == Some((b.extra_bits_stored, b.elems@))
                    &&& b.well_formed()
                },
                Err(e) => {
                    &&& e == Kind::InvalidSignatureData
                    &&& match spec_dec_bit_array(bytes@) {
                        Some(v) => !spec_bits_wf(v.0, v.1),
                        None => true,
                    }
                },
            },
    {
        proof {
            assert(bytes@.skip(0) =~= bytes@);
        }
        let er = match read_opt_varint(bytes, 0, 8) {
            Some(er) => er,
            None => return Err(Kind::InvalidSignatureData),
        };
        if er.0 > 0xFFFF_FFFFu64 {
            return Err(Kind::InvalidSignatureData);
        }
        let br = match read_opt_bytes(bytes, er.1, 18) {
            Some(br) => br,
            None => return Err(Kind::InvalidSignatureData),
        };
        if br.1 != bytes.len() {
            return Err(Kind::InvalidSignatureData);
        }
        let extra_bits_stored = er.0 as u32;
        let elems = br.0;
        let ghost decoded: (u32, Seq<u8>) = (extra_bits_stored, elems@);
        proof {
            assert(spec_dec_bit_array(bytes@) == Some(decoded));
        }
        if extra_bits_stored >= 8 {
            return Err(Kind::InvalidSignatureData);
        }
        if extra_bits_stored != 0 && elems.len() == 0 {
            return Err(Kind::InvalidSignatureData);
        }
        if elems.len() > usize::MAX / 8 {
            proof {
                assert(elems@.len() > usize::MAX / 8 ==> 8 * elems@.len() > usize::MAX)
                    by (nonlinear_arith);
            }
            return Err(Kind::InvalidSignatureData);
        }
        proof {
            assert(elems@.len() <= usize::MAX / 8 ==> 8 * elems@.len() <= usize::MAX)
                by (nonlinear_arith);
        }
        let total_bits = elems.len() * 8;
        let len_value = if extra_bits_stored == 0 {
            total_bits
        } else {
            (elems.len() - 1) * 8 + (extra_bits_stored as usize)
        };
        let mut p = len_value;
        while p < total_bits
            invariant
                len_value <= p,
                p <= total_bits == 8 * elems@.len(),
                len_value == spec_bits_len(extra_bits_stored, elems@),
                extra_bits_stored < 8,
                decoded == (extra_bits_stored, elems@),
                spec_dec_bit_array(bytes@) == Some(decoded),
                forall|i: int|
                    len_value <= i < p ==> !(#[trigger] byte_bit(elems@[i / 8], i % 8)),
            decreases total_bits - p,
        {
            proof {
                let pp = p as int;
                let n = elems@.len() as int;
                assert(0 <= pp < 8 * n ==> 0 <= pp / 8 < n && 0 <= pp % 8 < 8)
                    by (nonlinear_arith);
            }
            if (elems[p / 8] & (0x80u8 >> ((p % 8) as u8))) != 0 {
                proof {
                    assert(byte_bit(elems@[p as int / 8], p as int % 8));
                    assert(!spec_bits_wf(decoded.0, decoded.1));
                }
                return Err(Kind::InvalidSignatureData);
            }
            p = p + 1;
        }
        let b = BitArray { extra_bits_stored, elems };
        proof {
            assert(b.well_formed());
        }
        Ok(b)
    }
}


/// The typed-envelope tag selecting the secp256k1 decode path.
pub open spec fn spec_secp256k1_url() -> Seq<char> {
    ("/cosmos.crypto.secp256k1.PubKey")@
}

/// The typed-envelope tag selecting the ed25519 decode path.
pub open spec fn spec_ed25519_url() -> Seq<char> {
    ("/cosmos.crypto.ed25519.PubKey")@
}

/// The typed-envelope tag selecting the multi-signature decode path.
pub open spec fn spec_multisig_url() -> Seq<char> {
    ("/cosmos.crypto.multisig.LegacyAminoPubKey")@
}

/// The typed-envelope tag for the given key shape.
pub open spec fn spec_pk_url(pk: PubKeyView) -> Seq<char> {
    match pk {
        PubKeyView::Secp256k1(key) => spec_secp256k1_url(),
        PubKeyView::Ed25519(key) => spec_ed25519_url(),
        PubKeyView::Multisig { threshold, public_keys } => spec_multisig_url(),
    }
}

/// Canonical encoding of a single-algorithm key message: its key bytes.
pub open spec fn spec_enc_single_key(key: Seq<u8>) -> Seq<u8> {
    spec_field_bytes(10, key)
}

/// Canonical encoding of a key as its typed envelope: the algorithm tag,
/// then the encoded key message.
pub open spec fn spec_enc_any_pub_key(pk: PubKeyView) -> Seq<u8>
    decreases pk, 2int,
{
    spec_field_bytes(10, encode_utf8(spec_pk_url(pk))) + spec_field_bytes(
        18,
        match pk {
            PubKeyView::Secp256k1(key) => spec_enc_single_key(key),
            PubKeyView::Ed25519(key) => spec_enc_single_key(key),
            PubKeyView::Multisig { threshold, public_keys } => spec_enc_multisig(
                threshold,
                public_keys,
            ),
        },
    )
}

/// Canonical encoding of a multi-signature key message: the threshold, then
/// each member's envelope as a repeated field.
pub open spec fn spec_enc_multisig(threshold: u32, members: Seq<PubKeyView>) -> Seq<u8>
    decreases members, members.len() + 2,
{
    spec_field_varint(8, threshold as u64) + spec_enc_members(members, 0)
}

/// Canonical encoding of the member envelopes from index `i` on.
pub open spec fn spec_enc_members(members: Seq<PubKeyView>, i: int) -> Seq<u8>
    decreases members, members.len() - i,
{
    if i < 0 || i >= members.len() {
        Seq::empty()
    } else {
        spec_field_msg(18, spec_enc_any_pub_key(members[i])) + spec_enc_members(members, i + 1)
    }
}

/// Canonical parsing of a single-algorithm key message.
pub open spec fn spec_dec_single_key(s: Seq<u8>) -> Result<Seq<u8>, Kind> {
    match spec_dec_opt_bytes(s, 10) {
        Some(kr) => {
            if kr.1.len() == 0 {
                Ok(kr.0)
            } else {
                Err(Kind::InvalidRawPubKey)
            }
        },
        None => Err(Kind::InvalidRawPubKey),
    }
}

/// Canonical parsing of a key's typed envelope: an unrecognized algorithm
/// tag is `UnknownPubKeyType` and never defaults to any variant.
pub open spec fn spec_dec_any_pub_key(s: Seq<u8>) -> Result<PubKeyView, Kind>
    decreases s.len(), 2int,
    via spec_dec_any_pub_key_dec
{
    match spec_dec_opt_bytes(s, 10) {
        Some(ur) => match spec_dec_opt_bytes(ur.1, 18) {
            Some(vr) => {
                if vr.1.len() != 0 {
                    Err(Kind::InvalidRawPubKey)
                } else if !valid_utf8(ur.0) {
                    Err(Kind::InvalidRawPubKey)
                } else {
                    let url = decode_utf8(ur.0);
                    if url == spec_secp256k1_url() {
                        match spec_dec_single_key(vr.0) {
                            Ok(key) => Ok(PubKeyView::Secp256k1(key)),
                            Err(e) => Err(e),
                        }
                    } else if url == spec_ed25519_url() {
                        match spec_dec_single_key(vr.0) {
                            Ok(key) => Ok(PubKeyView::Ed25519(key)),
                            Err(e) => Err(e),
                        }
                    } else if url == spec_multisig_url() {
                        spec_dec_multisig(vr.0)
                    } else {
                        Err(Kind::UnknownPubKeyType)
                    }
                }
            },
            None => Err(Kind::InvalidRawPubKey),
        },
        None => Err(Kind::InvalidRawPubKey),
    }
}

#[via_fn]
proof fn spec_dec_any_pub_key_dec(s: Seq<u8>) {
    lemma_dec_opt_bytes_bounds(s, 10);
    match spec_dec_opt_bytes(s, 10) {
        Some(ur) => {
            lemma_dec_opt_bytes_bounds(ur.1, 18);
        },
        None => {},
    }
}

/// Canonical parsing of a multi-signature key message.
pub open spec fn spec_dec_multisig(s: Seq<u8>) -> Result<PubKeyView, Kind>
    decreases s.len(), 1int,
    via spec_dec_multisig_dec
{
    match spec_dec_opt_varint(s, 8) {
        Some(tr) => {
            if tr.0 > u32::MAX as u64 {
                Err(Kind::InvalidRawPubKey)
            } else {
                match spec_dec_members(tr.1) {
                    Ok(members) => Ok(
                        PubKeyView::Multisig { threshold: tr.0 as u32, public_keys: members },
                    ),
                    Err(e) => Err(e),
                }
            }
        },
        None => Err(Kind::InvalidRawPubKey),
    }
}

#[via_fn]
proof fn spec_dec_multisig_dec(s: Seq<u8>) {
    lemma_dec_opt_varint_bounds(s, 8);
}

/// Canonical parsing of the remaining member envelopes.
pub open spec fn spec_dec_members(s: Seq<u8>) -> Result<Seq<PubKeyView>, Kind>
    decreases s.len(), 0int,
    via spec_dec_members_dec
{
    if s.len() == 0 {
        Ok(Seq::empty())
    } else {
        match spec_varint_decode(s) {
            Some(tc) => {
                if tc.0 != 18 {
                    Err(Kind::InvalidRawPubKey)
                } else {
                    match spec_read_len_delim(s.skip(tc.1)) {
                        Some(pr) => match spec_dec_any_pub_key(pr.0) {
                            Ok(k) => match spec_dec_members(pr.1) {
                                Ok(rest) => Ok(seq![k] + rest),
                                Err(e) => Err(e),
                            },
                            Err(e) => Err(e),
                        },
                        None => Err(Kind::InvalidRawPubKey),
                    }
                }
            },
            None => Err(Kind::InvalidRawPubKey),
        }
    }
}

#[via_fn]
proof fn spec_dec_members_dec(s: Seq<u8>) {
    if s.len() != 0 {
        lemma_varint_decode_bounds(s);
        match spec_varint_decode(s) {
            Some(tc) => {
                lemma_read_len_delim_bounds(s.skip(tc.1));
            },
            None => {},
        }
    }
}

/// Bounds on a UTF-8 encoding: at least one byte per character, at most
/// four.
proof fn lemma_encode_utf8_len(chars: Seq<char>)
    ensures
        chars.len() <= encode_utf8(chars).len() <= 4 * chars.len(),
    decreases chars.len(),
{
    if chars.len() != 0 {
        lemma_encode_utf8_len(chars.drop_first());
        assert(1 <= vstd::utf8::encode_scalar(chars[0] as u32).len() <= 4);
    }
}

/// The three algorithm tags have distinct lengths, hence are distinct.
proof fn lemma_urls()
    ensures
        spec_secp256k1_url().len() == 31,
        spec_ed25519_url().len() == 29,
        spec_multisig_url().len() == 41,
        spec_secp256k1_url() != spec_ed25519_url(),
        spec_secp256k1_url() != spec_multisig_url(),
        spec_ed25519_url() != spec_multisig_url(),
{
    reveal_strlit("/cosmos.crypto.secp256k1.PubKey");
    reveal_strlit("/cosmos.crypto.ed25519.PubKey");
    reveal_strlit("/cosmos.crypto.multisig.LegacyAminoPubKey");
}

/// Whether every byte payload under this key shape is small enough for its
/// canonical encoding to be framed: the envelope length prefixes are
/// 64-bit.  Every key built from in-memory vectors satisfies this.
pub open spec fn spec_pk_enc_sized(pk: PubKeyView) -> bool
    decreases pk, 2int,
{
    match pk {
        PubKeyView::Secp256k1(key) => spec_enc_single_key(key).len() <= u64::MAX - 16,
        PubKeyView::Ed25519(key) => spec_enc_single_key(key).len() <= u64::MAX - 16,
        PubKeyView::Multisig { threshold, public_keys } => spec_enc_multisig(
            threshold,
            public_keys,
        ).len() <= u64::MAX - 16 && spec_members_enc_sized(public_keys, 0),
    }
}

/// `spec_pk_enc_sized` for the members from index `i` on, and a frame
/// bound for each member's own envelope.
pub open spec fn spec_members_enc_sized(members: Seq<PubKeyView>, i: int) -> bool
    decreases members, members.len() - i,
{
    if i < 0 || i >= members.len() {
        true
    } else {
        &&& spec_pk_enc_sized(members[i])
        &&& spec_enc_any_pub_key(members[i]).len() <= u64::MAX
        &&& spec_members_enc_sized(members, i + 1)
    }
}

/// An encoded single-algorithm key message parses back to its key bytes.
proof fn lemma_single_key_round_trip(key: Seq<u8>)
    requires
        key.len() <= u64::MAX,
    ensures
        spec_dec_single_key(spec_enc_single_key(key)) == Ok::<Seq<u8>, Kind>(key),
{
    lemma_dec_opt_bytes(10, key, Seq::empty());
    assert(spec_field_bytes(10, key) + Seq::<u8>::empty() =~= spec_field_bytes(10, key));
}

/// The encoded member envelopes from index `i` on parse back to exactly
/// the members from `i` on.
proof fn lemma_members_round_trip(members: Seq<PubKeyView>, i: int)
    requires
        0 <= i <= members.len(),
        spec_members_enc_sized(members, i),
    ensures
        spec_dec_members(spec_enc_members(members, i)) == Ok::<Seq<PubKeyView>, Kind>(
            members.skip(i),
        ),
    decreases members, members.len() - i + 1,
{
    if i == members.len() {
        assert(members.skip(i) =~= Seq::<PubKeyView>::empty());
    } else {
        let e0 = spec_enc_any_pub_key(members[i]);
        let rest = spec_enc_members(members, i + 1);
        let s = spec_enc_members(members, i);
        lemma_dec_field_msg(18, e0, rest);
        assert(s == spec_field_msg(18, e0) + rest);
        lemma_any_pub_key_round_trip(members[i]);
        lemma_members_round_trip(members, i + 1);
        assert(seq![members[i]] + members.skip(i + 1) =~= members.skip(i));
    }
}

/// An encoded multi-signature key message parses back to its shape.
proof fn lemma_multisig_round_trip(threshold: u32, members: Seq<PubKeyView>)
    requires
        spec_members_enc_sized(members, 0),
    ensures
        spec_dec_multisig(spec_enc_multisig(threshold, members)) == Ok::<PubKeyView, Kind>(
            PubKeyView::Multisig { threshold, public_keys: members },
        ),
    decreases members, members.len() + 3,
{
    let rest = spec_enc_members(members, 0);
    if members.len() > 0 {
        let e0 = spec_enc_any_pub_key(members[0]);
        lemma_dec_field_msg(18, e0, spec_enc_members(members, 1));
        assert(rest == spec_field_msg(18, e0) + spec_enc_members(members, 1));
    }
    lemma_dec_opt_varint(8, threshold as u64, rest);
    lemma_members_round_trip(members, 0);
    assert(members.skip(0) =~= members);
}

/// An encoded key envelope parses back to exactly the key shape that was
/// encoded: the wire round-trip for public keys.
pub proof fn lemma_any_pub_key_round_trip(pk: PubKeyView)
    requires
        spec_pk_enc_sized(pk),
    ensures
        spec_dec_any_pub_key(spec_enc_any_pub_key(pk)) == Ok::<PubKeyView, Kind>(pk),
    decreases pk, 2int,
{
    let url = spec_pk_url(pk);
    let urlb = encode_utf8(url);
    lemma_urls();
    lemma_encode_utf8_len(url);
    let value = match pk {
        PubKeyView::Secp256k1(key) => spec_enc_single_key(key),
        PubKeyView::Ed25519(key) => spec_enc_single_key(key),
        PubKeyView::Multisig { threshold, public_keys } => spec_enc_multisig(
            threshold,
            public_keys,
        ),
    };
    let f18 = spec_field_bytes(18, value);
    lemma_dec_opt_bytes(10, urlb, f18);
    lemma_dec_opt_bytes(18, value, Seq::empty());
    assert(f18 + Seq::<u8>::empty() =~= f18);
    encode_utf8_valid_utf8(url);
    encode_utf8_decode_utf8(url);
    match pk {
        PubKeyView::Secp256k1(key) => {
            assert(spec_field_bytes(10, key).len() >= key.len());
            lemma_single_key_round_trip(key);
        },
        PubKeyView::Ed25519(key) => {
            assert(spec_field_bytes(10, key).len() >= key.len());
            lemma_single_key_round_trip(key);
        },
        PubKeyView::Multisig { threshold, public_keys } => {
            lemma_multisig_round_trip(threshold, public_keys);
        },
    }
}

/// Relies on `String::from_utf8`: it succeeds exactly on valid UTF-8 input
/// and returns the characters those bytes encode, as the same UTF-8 model
/// this crate specifies strings with.
#[verifier::external_body]
pub(crate) fn bytes_to_string(bytes: Vec<u8>) -> (r: Option<String>)
    ensures
        (r is Some) == valid_utf8(bytes@),
        r matches Some(s) ==> s@ == decode_utf8(bytes@),
{
    match std::string::String::from_utf8(bytes) {
        Ok(s) => Some(s),
        Err(_) => None,
    }
}

impl AnyPublicKey {
    /// Canonical typed-envelope encoding of this key.
    pub fn encode_vec(&self) -> (r: Vec<u8>)
        ensures
            r@ == spec_enc_any_pub_key(self@),
        decreases *self,
    {
        let mut out: Vec<u8> = Vec::new();
        match self {
            AnyPublicKey::Secp256k1(k) => {
                let url = ("/cosmos.crypto.secp256k1.PubKey").as_bytes_vec();
                encode_field_bytes(&mut out, 10, &url);
                let mut value: Vec<u8> = Vec::new();
                encode_field_bytes(&mut value, 10, &k.key);
                encode_field_bytes(&mut out, 18, &value);
                proof {
                    assert(out@ =~= spec_enc_any_pub_key(self@));
                }
            },
            AnyPublicKey::Ed25519(k) => {
                let url = ("/cosmos.crypto.ed25519.PubKey").as_bytes_vec();
                encode_field_bytes(&mut out, 10, &url);
                let mut value: Vec<u8> = Vec::new();
                encode_field_bytes(&mut value, 10, &k.key);
                encode_field_bytes(&mut out, 18, &value);
                proof {
                    assert(out@ =~= spec_enc_any_pub_key(self@));
                }
            },
            AnyPublicKey::Multisig(m) => {
                let url = ("/cosmos.crypto.multisig.LegacyAminoPubKey").as_bytes_vec();
                encode_field_bytes(&mut out, 10, &url);
                let ghost views = spec_pk_views(m.public_keys@);
                proof {
                    lemma_pk_views_len(m.public_keys@);
                }
                let mut value: Vec<u8> = Vec::new();
                encode_field_varint(&mut value, 8, m.threshold as u64);
                let mut i: usize = 0;
                while i < m.public_keys.len()
                    invariant
                        *self == AnyPublicKey::Multisig(*m),
                        i <= m.public_keys@.len(),
                        views == spec_pk_views(m.public_keys@),
                        views.len() == m.public_keys@.len(),
                        value@ + spec_enc_members(views, i as int) == spec_field_varint(
                            8,
                            m.threshold as u64,
                        ) + spec_enc_members(views, 0),
                    decreases m.public_keys@.len() - i,
                {
                    proof {
                        assert(decreases_to!(*self => self->Multisig_0));
                        assert(decreases_to!(*m => m.public_keys));
                        assert(decreases_to!(m.public_keys => m.public_keys@));
                        assert(decreases_to!(m.public_keys@ => m.public_keys@[i as int]));
                        assert(decreases_to!(*self => m.public_keys@[i as int]));
                        lemma_pk_views_index(m.public_keys@, i as int);
                    }
                    let ghost value_before = value@;
                    let member_bytes = m.public_keys[i].encode_vec();
                    encode_field_msg(&mut value, 18, &member_bytes);
                    i = i + 1;
                    proof {
                        assert(spec_enc_members(views, i as int - 1) == spec_field_msg(
                            18,
                            spec_enc_any_pub_key(views[i as int - 1]),
                        ) + spec_enc_members(views, i as int));
                        assert(value_before + spec_enc_members(views, i as int - 1) =~= value@
                            + spec_enc_members(views, i as int));
                    }
                }
                proof {
                    assert(spec_enc_members(views, views.len() as int) == Seq::<u8>::empty());
                    assert(value@ + Seq::<u8>::empty() =~= value@);
                    assert(value@ =~= spec_enc_multisig(m.threshold, views));
                }
                encode_field_bytes(&mut out, 18, &value);
                proof {
                    assert(out@ =~= spec_enc_any_pub_key(self@));
                }
            },
        }
        out
    }

    /// Parses a key from its canonical typed envelope.  An unrecognized
    /// algorithm tag is `UnknownPubKeyType` and never defaults to any
    /// variant; malformed bytes are `InvalidRawPubKey`.
    pub fn decode_vec(bytes: &Vec<u8>) -> (r: Result<AnyPublicKey, Kind>)
        ensures
            (r is Ok) == (spec_dec_any_pub_key(bytes@) is Ok),
            r matches Ok(pk) ==> spec_dec_any_pub_key(bytes@) == Ok::<PubKeyView, Kind>(pk@),
            r matches Err(e) ==> spec_dec_any_pub_key(bytes@) == Err::<PubKeyView, Kind>(e),
        decreases bytes@.len(), 2int,
    {
        proof {
            assert(bytes@.skip(0) =~= bytes@);
        }
        let ur = match read_opt_bytes(bytes, 0, 10) {
            Some(ur) => ur,
            None => {
                return Err(Kind::InvalidRawPubKey);
            },
        };
        let (url_vec, upos) = ur;
        let vr = match read_opt_bytes(bytes, upos, 18) {
            Some(vr) => vr,
            None => {
                return Err(Kind::InvalidRawPubKey);
            },
        };
        let (value, vpos) = vr;
        if vpos != bytes.len() {
            return Err(Kind::InvalidRawPubKey);
        }
        let ghost url_bytes_g = url_vec@;
        let ghost value_g = value@;
        proof {
            lemma_dec_opt_bytes_bounds(bytes@, 10);
            lemma_dec_opt_bytes_bounds(bytes@.skip(upos as int), 18);
        }
        let url = match bytes_to_string(url_vec) {
            Some(url) => url,
            None => {
                return Err(Kind::InvalidRawPubKey);
            },
        };
        if url == ("/cosmos.crypto.secp256k1.PubKey").to_owned() {
            match AnyPublicKey::decode_single_key_value(&value) {
                Ok(key) => Ok(AnyPublicKey::Secp256k1(Secp256k1PubKey { key })),
                Err(e) => Err(e),
            }
        } else if url == ("/cosmos.crypto.ed25519.PubKey").to_owned() {
            match AnyPublicKey::decode_single_key_value(&value) {
                Ok(key) => Ok(AnyPublicKey::Ed25519(Ed25519PubKey { key })),
                Err(e) => Err(e),
            }
        } else if url == ("/cosmos.crypto.multisig.LegacyAminoPubKey").to_owned() {
            match AnyPublicKey::decode_multisig_value(&value) {
                Ok(m) => Ok(AnyPublicKey::Multisig(m)),
                Err(e) => Err(e),
            }
        } else {
            Err(Kind::UnknownPubKeyType)
        }
    }

    /// Parses a single-algorithm key message: its key bytes.
    fn decode_single_key_value(value: &Vec<u8>) -> (r: Result<Vec<u8>, Kind>)
        ensures
            (r is Ok) == (spec_dec_single_key(value@) is Ok),
            r matches Ok(k) ==> spec_dec_single_key(value@) == Ok::<Seq<u8>, Kind>(k@),
            r matches Err(e) ==> spec_dec_single_key(value@) == Err::<Seq<u8>, Kind>(e),
    {
        proof {
            assert(value@.skip(0) =~= value@);
        }
        let kr = match read_opt_bytes(value, 0, 10) {
            Some(kr) => kr,
            None => {
                return Err(Kind::InvalidRawPubKey);
            },
        };
        let (key, kpos) = kr;
        if kpos != value.len() {
            return Err(Kind::InvalidRawPubKey);
        }
        Ok(key)
    }

    /// Parses a multi-signature key message: the threshold, then the
    /// member envelopes.
    fn decode_multisig_value(value: &Vec<u8>) -> (r: Result<MultisigPubKey, Kind>)
        ensures
            (r is Ok) == (spec_dec_multisig(value@) is Ok),
            r matches Ok(m) ==> spec_dec_multisig(value@) == Ok::<PubKeyView, Kind>(
                PubKeyView::Multisig {
                    threshold: m.threshold,
                    public_keys: spec_pk_views(m.public_keys@),
                },
            ),
            r matches Err(e) ==> spec_dec_multisig(value@) == Err::<PubKeyView, Kind>(e),
        decreases value@.len(), 1int,
    {
        proof {
            assert(value@.skip(0) =~= value@);
        }
        let tr = match read_opt_varint(value, 0, 8) {
            Some(tr) => tr,
            None => {
                return Err(Kind::InvalidRawPubKey);
            },
        };
        if tr.0 > 0xFFFF_FFFFu64 {
            return Err(Kind::InvalidRawPubKey);
        }
        let threshold = tr.0 as u32;
        let ghost th64 = tr.0;
        let start = tr.1;
        let mut keys: Vec<AnyPublicKey> = Vec::new();
        let mut pos = start;
        proof {
            assert(spec_pk_views(keys@) == Seq::<PubKeyView>::empty());
        }
        while pos < value.len()
            invariant
                start <= pos <= value@.len(),
                spec_dec_opt_varint(value@, 8) == Some((th64, value@.skip(start as int))),
                th64 <= u32::MAX as u64,
                threshold == th64 as u32,
                spec_pk_views(keys@).len() == keys@.len(),
                match spec_dec_members(value@.skip(pos as int)) {
                    Ok(rest) => spec_dec_members(value@.skip(start as int)) == Ok::<
                        Seq<PubKeyView>,
                        Kind,
                    >(spec_pk_views(keys@) + rest),
                    Err(e) => spec_dec_members(value@.skip(start as int)) == Err::<
                        Seq<PubKeyView>,
                        Kind,
                    >(e),
                },
            decreases value@.len() - pos,
        {
            let ghost suffix = value@.skip(pos as int);
            proof {
                assert(suffix.len() > 0);
            }
            let t = match decode_varint(value, pos) {
                Some(t) => t,
                None => {
                    return Err(Kind::InvalidRawPubKey);
                },
            };
            if t.0 != 18 {
                return Err(Kind::InvalidRawPubKey);
            }
            proof {
                assert(value@.skip(pos as int).skip(t.1 as int - pos as int) =~= value@.skip(
                    t.1 as int,
                ));
            }
            let pr = match read_len_delim(value, t.1) {
                Some(pr) => pr,
                None => {
                    return Err(Kind::InvalidRawPubKey);
                },
            };
            let (member_bytes, newpos) = pr;
            proof {
                lemma_varint_decode_bounds(suffix);
                lemma_read_len_delim_bounds(value@.skip(t.1 as int));
                assert(member_bytes@.len() < value@.len());
            }
            let member = match AnyPublicKey::decode_vec(&member_bytes) {
                Ok(member) => member,
                Err(e) => {
                    return Err(e);
                },
            };
            let ghost keys_before = keys@;
            keys.push(member);
            pos = newpos;
            proof {
                lemma_pk_views_push(keys_before, member);
                lemma_pk_views_len(keys@);
                assert(keys@ == keys_before.push(member));
                match spec_dec_members(value@.skip(pos as int)) {
                    Ok(rest) => {
                        assert(spec_dec_members(suffix) == Ok::<Seq<PubKeyView>, Kind>(
                            seq![member@] + rest,
                        ));
                        assert(spec_pk_views(keys_before) + (seq![member@] + rest)
                            =~= spec_pk_views(keys@) + rest);
                    },
                    Err(e) => {
                        assert(spec_dec_members(suffix) == Err::<Seq<PubKeyView>, Kind>(e));
                    },
                }
            }
        }
        proof {
            assert(value@.skip(value@.len() as int) =~= Seq::<u8>::empty());
            assert(spec_dec_members(value@.skip(pos as int)) == Ok::<Seq<PubKeyView>, Kind>(
                Seq::<PubKeyView>::empty(),
            ));
            assert(spec_pk_views(keys@) + Seq::<PubKeyView>::empty() =~= spec_pk_views(keys@));
        }
        Ok(MultisigPubKey { threshold, public_keys: keys })
    }
}

/// A multi-signature key's canonical message encoding is empty exactly
/// when the key is empty: zero threshold and no members.  This is what
/// `AnyPublicKey::is_empty` decides without encoding.
pub proof fn lemma_multisig_empty_iff_enc_empty(threshold: u32, members: Seq<PubKeyView>)
    ensures
        (spec_enc_multisig(threshold, members).len() == 0) == (threshold == 0 && members.len()
            == 0),
{
    if threshold != 0 {
        lemma_varint_round_trip(8, Seq::empty());
        lemma_varint_round_trip(threshold as u64, Seq::empty());
    }
    if members.len() > 0 {
        let e0 = spec_enc_any_pub_key(members[0]);
        lemma_varint_round_trip(18, Seq::empty());
        lemma_varint_round_trip(e0.len() as u64, Seq::empty());
        assert(spec_enc_members(members, 0) == spec_field_msg(18, e0) + spec_enc_members(
            members,
            1,
        ));
    }
}

} // verus!
