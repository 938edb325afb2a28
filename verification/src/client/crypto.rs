//! Public keys and signature payloads, and their verification dispatch.
//!
//! The key union is closed: a single-algorithm secp256k1 or ed25519 key, or
//! a recursive threshold multi-signature key.  A signature payload must
//! tag-match the key variant it is verified against; any mismatch is a
//! verification failure, never a panic.
//!
//! Recursion over nested multi-signature keys needs no explicit depth cap:
//! verification and encoding descend only into structurally smaller
//! members (their termination is proved), and the wire decoder bounds
//! nesting depth by the input length, since every nested envelope costs
//! framing bytes.

use vstd::prelude::*;

use crate::client::bit_array::{count_true_prefix, BitArray};
use crate::client::error::Kind;

verus! {

broadcast use vstd::seq::axiom_seq_index_decreases, vstd::seq::axiom_seq_subrange_decreases, vstd::std_specs::vec::axiom_vec_decreases_to_view, vstd::std_specs::vec::axiom_vec_index_decreases;

/// Whether secp256k1 accepts `key` as a SEC1-encoded curve point.
/// Named result of `k256::ecdsa::VerifyingKey::from_sec1_bytes`.
pub uninterp spec fn secp256k1_key_ok(key: Seq<u8>) -> bool;

/// Whether secp256k1 accepts `sig` as a fixed-size encoded signature.
/// Named result of `k256::ecdsa::Signature::from_slice`.
pub uninterp spec fn secp256k1_sig_ok(sig: Seq<u8>) -> bool;

/// Whether `sig` is a valid secp256k1 signature by `key` over `msg`.
/// Named result of `k256::ecdsa::signature::Verifier::verify`.
pub uninterp spec fn secp256k1_sig_verifies(key: Seq<u8>, msg: Seq<u8>, sig: Seq<u8>) -> bool;

/// Whether ed25519 accepts `key` as a compressed-point public key.
/// Named result of `ed25519_dalek::VerifyingKey::from_bytes`.
pub uninterp spec fn ed25519_key_ok(key: Seq<u8>) -> bool;

/// Whether `sig` is a valid ed25519 signature by `key` over `msg`.
/// Named result of `ed25519_dalek::Verifier::verify`.
pub uninterp spec fn ed25519_sig_verifies(key: Seq<u8>, msg: Seq<u8>, sig: Seq<u8>) -> bool;

/// A secp256k1 public key as SEC1 bytes.
#[derive(Clone, Debug, PartialEq, Eq)]
pub struct Secp256k1PubKey {
    /// SEC1-encoded (compressed or uncompressed) curve point.
    pub key: Vec<u8>,
}

/// An ed25519 public key as compressed-point bytes.
#[derive(Clone, Debug, PartialEq, Eq)]
pub struct Ed25519PubKey {
    /// Compressed Edwards point.
    pub key: Vec<u8>,
}

/// A threshold multi-signature key: at least `threshold` of the ordered
/// member keys must sign.  A member may itself be any key variant,
/// including another multi-signature key.
#[derive(Debug, PartialEq, Eq)]
pub struct MultisigPubKey {
    /// How many members must sign.
    pub threshold: u32,
    /// The ordered member keys.
    pub public_keys: Vec<AnyPublicKey>,
}

/// The closed union of public-key variants.
#[derive(Debug, PartialEq, Eq)]
pub enum AnyPublicKey {
    /// A secp256k1 key.
    Secp256k1(Secp256k1PubKey),
    /// An ed25519 key.
    Ed25519(Ed25519PubKey),
    /// A threshold multi-signature key.
    Multisig(MultisigPubKey),
}

/// The mathematical shape of a public key.
pub enum PubKeyView {
    /// A secp256k1 key's bytes.
    Secp256k1(Seq<u8>),
    /// An ed25519 key's bytes.
    Ed25519(Seq<u8>),
    /// A multi-signature key: threshold and member shapes.
    Multisig { threshold: u32, public_keys: Seq<PubKeyView> },
}

/// The mathematical shape of an `AnyPublicKey`.
pub open spec fn spec_pk_view(pk: AnyPublicKey) -> PubKeyView
    decreases pk,
{
    match pk {
        AnyPublicKey::Secp256k1(k) => PubKeyView::Secp256k1(k.key@),
        AnyPublicKey::Ed25519(k) => PubKeyView::Ed25519(k.key@),
        AnyPublicKey::Multisig(m) => PubKeyView::Multisig {
            threshold: m.threshold,
            public_keys: spec_pk_views(m.public_keys@),
        },
    }
}

/// The member-wise mathematical shape of a key sequence.
pub open spec fn spec_pk_views(keys: Seq<AnyPublicKey>) -> Seq<PubKeyView>
    decreases keys,
{
    if keys.len() == 0 {
        Seq::empty()
    } else {
        seq![spec_pk_view(keys[0])] + spec_pk_views(keys.skip(1))
    }
}

/// `spec_pk_views` maps member-wise.
pub proof fn lemma_pk_views_index(keys: Seq<AnyPublicKey>, i: int)
    requires
        0 <= i < keys.len(),
    ensures
        spec_pk_views(keys).len() == keys.len(),
        spec_pk_views(keys)[i] == spec_pk_view(keys[i]),
    decreases keys.len(),
{
    lemma_pk_views_len(keys);
    if i > 0 {
        lemma_pk_views_index(keys.skip(1), i - 1);
    }
}

/// `spec_pk_views` preserves length.
pub proof fn lemma_pk_views_len(keys: Seq<AnyPublicKey>)
    ensures
        spec_pk_views(keys).len() == keys.len(),
    decreases keys.len(),
{
    if keys.len() > 0 {
        lemma_pk_views_len(keys.skip(1));
    }
}

impl View for AnyPublicKey {
    type V = PubKeyView;

    open spec fn view(&self) -> PubKeyView {
        spec_pk_view(*self)
    }
}

/// Appending a key appends its shape.
pub proof fn lemma_pk_views_push(keys: Seq<AnyPublicKey>, k: AnyPublicKey)
    ensures
        spec_pk_views(keys.push(k)) == spec_pk_views(keys).push(spec_pk_view(k)),
    decreases keys.len(),
{
    if keys.len() == 0 {
        assert(keys.push(k)[0] == k);
        assert(keys.push(k).skip(1) =~= Seq::<AnyPublicKey>::empty());
        assert(spec_pk_views(keys.push(k)) == seq![spec_pk_view(k)] + spec_pk_views(
            Seq::<AnyPublicKey>::empty(),
        ));
        assert(spec_pk_views(Seq::<AnyPublicKey>::empty()) == Seq::<PubKeyView>::empty());
        assert(spec_pk_views(keys) == Seq::<PubKeyView>::empty());
        assert(seq![spec_pk_view(k)] + Seq::<PubKeyView>::empty() =~= Seq::<
            PubKeyView,
        >::empty().push(spec_pk_view(k)));
    } else {
        assert(keys.push(k)[0] == keys[0]);
        assert(keys.push(k).skip(1) =~= keys.skip(1).push(k));
        lemma_pk_views_push(keys.skip(1), k);
        lemma_pk_views_len(keys.skip(1));
        assert(spec_pk_views(keys.push(k)) == seq![spec_pk_view(keys[0])] + spec_pk_views(
            keys.skip(1),
        ).push(spec_pk_view(k)));
        assert(seq![spec_pk_view(keys[0])] + spec_pk_views(keys.skip(1)).push(spec_pk_view(k))
            =~= (seq![spec_pk_view(keys[0])] + spec_pk_views(keys.skip(1))).push(
            spec_pk_view(k),
        ));
    }
}

/// Key sequences with member-wise equal shapes have equal shapes.
pub proof fn lemma_pk_views_pointwise(a: Seq<AnyPublicKey>, b: Seq<AnyPublicKey>)
    requires
        a.len() == b.len(),
        forall|i: int| 0 <= i < a.len() ==> #[trigger] spec_pk_view(a[i]) == spec_pk_view(b[i]),
    ensures
        spec_pk_views(a) == spec_pk_views(b),
{
    lemma_pk_views_len(a);
    lemma_pk_views_len(b);
    assert forall|i: int| 0 <= i < a.len() implies spec_pk_views(a)[i] == spec_pk_views(b)[i] by {
        lemma_pk_views_index(a, i);
        lemma_pk_views_index(b, i);
    }
    assert(spec_pk_views(a) =~= spec_pk_views(b));
}

/// The decoded payload of a multi-signature: a bitmap naming which members
/// signed, and the member signatures in ascending set-bit order.
#[derive(Debug, PartialEq, Eq)]
pub struct MultiSignatureData {
    /// Which members, among the ordered member keys, signed.
    pub bit_array: BitArray,
    /// One payload per set bit, in ascending bit order.
    pub signatures: Vec<SignatureData>,
}

/// The closed union of signature-payload variants.
#[derive(Debug, PartialEq, Eq)]
pub enum SignatureData {
    /// A single signature's raw bytes.
    Single {
        /// The signature bytes.
        signature: Vec<u8>,
    },
    /// A multi-signature payload.
    Multi(MultiSignatureData),
}

/// The mathematical shape of a signature payload.
pub enum SignatureDataView {
    /// A single signature's bytes.
    Single(Seq<u8>),
    /// A multi-signature payload: the signer bitmap and the member
    /// signature shapes.
    Multi { bit_array: Seq<bool>, signatures: Seq<SignatureDataView> },
}

/// The mathematical shape of a `SignatureData`.
pub open spec fn spec_sd_view(sd: SignatureData) -> SignatureDataView
    decreases sd,
{
    match sd {
        SignatureData::Single { signature } => SignatureDataView::Single(signature@),
        SignatureData::Multi(m) => SignatureDataView::Multi {
            bit_array: m.bit_array@,
            signatures: spec_sd_views(m.signatures@),
        },
    }
}

/// The member-wise mathematical shape of a payload sequence.
pub open spec fn spec_sd_views(sds: Seq<SignatureData>) -> Seq<SignatureDataView>
    decreases sds,
{
    if sds.len() == 0 {
        Seq::empty()
    } else {
        seq![spec_sd_view(sds[0])] + spec_sd_views(sds.skip(1))
    }
}

/// `spec_sd_views` preserves length.
pub proof fn lemma_sd_views_len(sds: Seq<SignatureData>)
    ensures
        spec_sd_views(sds).len() == sds.len(),
    decreases sds.len(),
{
    if sds.len() > 0 {
        lemma_sd_views_len(sds.skip(1));
    }
}

/// `spec_sd_views` maps member-wise.
pub proof fn lemma_sd_views_index(sds: Seq<SignatureData>, i: int)
    requires
        0 <= i < sds.len(),
    ensures
        spec_sd_views(sds).len() == sds.len(),
        spec_sd_views(sds)[i] == spec_sd_view(sds[i]),
    decreases sds.len(),
{
    lemma_sd_views_len(sds);
    if i > 0 {
        lemma_sd_views_index(sds.skip(1), i - 1);
    }
}

/// Appending a payload appends its shape.
pub proof fn lemma_sd_views_push(sds: Seq<SignatureData>, sd: SignatureData)
    ensures
        spec_sd_views(sds.push(sd)) == spec_sd_views(sds).push(spec_sd_view(sd)),
    decreases sds.len(),
{
    if sds.len() == 0 {
        assert(sds.push(sd)[0] == sd);
        assert(sds.push(sd).skip(1) =~= Seq::<SignatureData>::empty());
        assert(spec_sd_views(sds.push(sd)) == seq![spec_sd_view(sd)] + spec_sd_views(
            Seq::<SignatureData>::empty(),
        ));
        assert(spec_sd_views(Seq::<SignatureData>::empty()) == Seq::<SignatureDataView>::empty());
        assert(spec_sd_views(sds) == Seq::<SignatureDataView>::empty());
        assert(seq![spec_sd_view(sd)] + Seq::<SignatureDataView>::empty() =~= Seq::<
            SignatureDataView,
        >::empty().push(spec_sd_view(sd)));
    } else {
        assert(sds.push(sd)[0] == sds[0]);
        assert(sds.push(sd).skip(1) =~= sds.skip(1).push(sd));
        lemma_sd_views_push(sds.skip(1), sd);
        lemma_sd_views_len(sds.skip(1));
        assert(spec_sd_views(sds.push(sd)) == seq![spec_sd_view(sds[0])] + spec_sd_views(
            sds.skip(1),
        ).push(spec_sd_view(sd)));
        assert(seq![spec_sd_view(sds[0])] + spec_sd_views(sds.skip(1)).push(spec_sd_view(sd))
            =~= (seq![spec_sd_view(sds[0])] + spec_sd_views(sds.skip(1))).push(
            spec_sd_view(sd),
        ));
    }
}

/// Appending a structurally valid payload preserves sequence validity.
pub proof fn lemma_sds_wf_push(sds: Seq<SignatureData>, sd: SignatureData)
    requires
        spec_sds_wf(sds),
        spec_sd_wf(sd),
    ensures
        spec_sds_wf(sds.push(sd)),
    decreases sds.len(),
{
    if sds.len() == 0 {
        assert(sds.push(sd)[0] == sd);
        assert(sds.push(sd).skip(1) =~= Seq::<SignatureData>::empty());
        assert(spec_sds_wf(Seq::<SignatureData>::empty()));
        assert(spec_sds_wf(sds.push(sd)));
    } else {
        assert(sds.push(sd)[0] == sds[0]);
        assert(sds.push(sd).skip(1) =~= sds.skip(1).push(sd));
        assert(spec_sd_wf(sds[0]) && spec_sds_wf(sds.skip(1)));
        lemma_sds_wf_push(sds.skip(1), sd);
        assert(spec_sds_wf(sds.push(sd)));
    }
}

impl View for SignatureData {
    type V = SignatureDataView;

    open spec fn view(&self) -> SignatureDataView {
        spec_sd_view(*self)
    }
}

/// Structural validity of a payload: every bitmap in it is well formed.
pub open spec fn spec_sd_wf(sd: SignatureData) -> bool
    decreases sd,
{
    match sd {
        SignatureData::Single { .. } => true,
        SignatureData::Multi(m) => m.bit_array.well_formed() && spec_sds_wf(m.signatures@),
    }
}

/// Structural validity of every payload in a sequence.
pub open spec fn spec_sds_wf(sds: Seq<SignatureData>) -> bool
    decreases sds,
{
    if sds.len() == 0 {
        true
    } else {
        spec_sd_wf(sds[0]) && spec_sds_wf(sds.skip(1))
    }
}

/// Validity of a sequence gives validity of each member.
pub proof fn lemma_sds_wf_index(sds: Seq<SignatureData>, i: int)
    requires
        spec_sds_wf(sds),
        0 <= i < sds.len(),
    ensures
        spec_sd_wf(sds[i]),
    decreases sds.len(),
{
    if i > 0 {
        lemma_sds_wf_index(sds.skip(1), i - 1);
    }
}

/// What verifying `sig` as a secp256k1 signature returns: a key that does
/// not decode is rejected before the signature, and both before any
/// cryptographic comparison.
pub open spec fn spec_verify_secp256k1(key: Seq<u8>, msg: Seq<u8>, sig: Seq<u8>) -> Result<
    (),
    Kind,
> {
    if !secp256k1_key_ok(key) {
        Err(Kind::InvalidPubKey)
    } else if !secp256k1_sig_ok(sig) {
        Err(Kind::InvalidSignatureData)
    } else if !secp256k1_sig_verifies(key, msg, sig) {
        Err(Kind::SignatureVerificationFailed)
    } else {
        Ok(())
    }
}

/// What verifying `sig` as an ed25519 signature returns: a signature of any
/// length but 64 bytes is rejected before any cryptographic check.
pub open spec fn spec_verify_ed25519(key: Seq<u8>, msg: Seq<u8>, sig: Seq<u8>) -> Result<
    (),
    Kind,
> {
    if sig.len() != 64 {
        Err(Kind::InvalidSignatureData)
    } else if !ed25519_key_ok(key) {
        Err(Kind::InvalidPubKey)
    } else if !ed25519_sig_verifies(key, msg, sig) {
        Err(Kind::SignatureVerificationFailed)
    } else {
        Ok(())
    }
}

/// What verifying a payload against a key returns.  Dispatch is structural:
/// only the matching pairings are accepted; every other pairing fails with
/// `InvalidSignatureType` before any cryptographic work.
pub open spec fn spec_verify(pk: PubKeyView, msg: Seq<u8>, sd: SignatureDataView) -> Result<
    (),
    Kind,
>
    decreases pk,
{
    match pk {
        PubKeyView::Secp256k1(key) => match sd {
            SignatureDataView::Single(sig) => spec_verify_secp256k1(key, msg, sig),
            _ => Err(Kind::InvalidSignatureType),
        },
        PubKeyView::Ed25519(key) => match sd {
            SignatureDataView::Single(sig) => spec_verify_ed25519(key, msg, sig),
            _ => Err(Kind::InvalidSignatureType),
        },
        PubKeyView::Multisig { threshold, public_keys } => match sd {
            SignatureDataView::Multi { bit_array, signatures } => spec_verify_multisig(
                threshold,
                public_keys,
                msg,
                bit_array,
                signatures,
            ),
            _ => Err(Kind::InvalidSignatureType),
        },
    }
}

/// What verifying a multi-signature returns: the bitmap must cover exactly
/// the member list, the signature count must lie between the threshold and
/// the member count, at least `threshold` signer bits must be set, and each
/// set bit's member must verify the next signature in ascending bit order.
pub open spec fn spec_verify_multisig(
    threshold: u32,
    members: Seq<PubKeyView>,
    msg: Seq<u8>,
    bits: Seq<bool>,
    sigs: Seq<SignatureDataView>,
) -> Result<(), Kind>
    decreases members, members.len() + 1,
{
    if bits.len() != members.len() {
        Err(Kind::InvalidSignatureData)
    } else if sigs.len() < threshold || sigs.len() > members.len() {
        Err(Kind::InvalidSignatureData)
    } else if count_true_prefix(bits, members.len() as int) < threshold {
        Err(Kind::InvalidSignatureData)
    } else {
        spec_verify_walk(members, msg, bits, sigs, 0)
    }
}

/// The multi-signature walk from member `i` on: each set bit consumes the
/// next signature, in strict left-to-right pairing, and the first failure
/// aborts the whole check.  Running out of signatures while bits remain set
/// is signature-data shape error, not a panic.
pub open spec fn spec_verify_walk(
    members: Seq<PubKeyView>,
    msg: Seq<u8>,
    bits: Seq<bool>,
    sigs: Seq<SignatureDataView>,
    i: int,
) -> Result<(), Kind>
    decreases members, members.len() - i,
{
    if i < 0 || i >= members.len() {
        Ok(())
    } else if bits[i] {
        let si = count_true_prefix(bits, i);
        if si >= sigs.len() {
            Err(Kind::InvalidSignatureData)
        } else {
            match spec_verify(members[i], msg, sigs[si]) {
                Ok(u) => spec_verify_walk(members, msg, bits, sigs, i + 1),
                Err(e) => Err(e),
            }
        }
    } else {
        spec_verify_walk(members, msg, bits, sigs, i + 1)
    }
}


/// The multi-signature walk succeeds from `i` on exactly when, for every
/// later member whose signer bit is set, a signature exists at its rank
/// (the count of set bits before it) and verifies under that member.  This
/// is the non-operational reading of the ascending pairing discipline.
pub proof fn lemma_verify_walk_ok_iff(
    members: Seq<PubKeyView>,
    msg: Seq<u8>,
    bits: Seq<bool>,
    sigs: Seq<SignatureDataView>,
    i: int,
)
    requires
        0 <= i,
    ensures
        (spec_verify_walk(members, msg, bits, sigs, i) is Ok) == (forall|j: int|
            i <= j < members.len() && 0 <= j && bits[j] ==> count_true_prefix(bits, j)
                < sigs.len() && (#[trigger] spec_verify(
                members[j],
                msg,
                sigs[count_true_prefix(bits, j)],
            )) is Ok),
    decreases members.len() - i,
{
    if i < members.len() {
        lemma_verify_walk_ok_iff(members, msg, bits, sigs, i + 1);
        if bits[i] {
            let own_rank = count_true_prefix(bits, i);
            if own_rank < sigs.len() {
                let own_check = spec_verify(members[i], msg, sigs[own_rank]);
                assert(own_check == spec_verify(members[i], msg, sigs[count_true_prefix(bits, i)]));
            } else {
                assert(!(i <= i < members.len() && 0 <= i && bits[i] ==> count_true_prefix(bits, i)
                    < sigs.len() && spec_verify(members[i], msg, sigs[count_true_prefix(bits, i)])
                    is Ok));
            }
        }
    }
}

impl AnyPublicKey {
    /// Whether this key is empty: no key bytes for a single-algorithm key;
    /// for a multi-signature key, nothing that its wire encoding would
    /// carry (zero threshold and no members).
    pub open spec fn spec_is_empty(&self) -> bool {
        match *self {
            AnyPublicKey::Secp256k1(ref k) => k.key@.len() == 0,
            AnyPublicKey::Ed25519(ref k) => k.key@.len() == 0,
            AnyPublicKey::Multisig(ref m) => m.threshold == 0 && m.public_keys@.len() == 0,
        }
    }

    /// Deep copy: the copy has the same mathematical shape as the original.
    pub fn clone(&self) -> (r: AnyPublicKey)
        ensures
            r@ == self@,
        decreases *self,
    {
        match self {
            AnyPublicKey::Secp256k1(k) => AnyPublicKey::Secp256k1(
                Secp256k1PubKey { key: vstd::slice::slice_to_vec(k.key.as_slice()) },
            ),
            AnyPublicKey::Ed25519(k) => AnyPublicKey::Ed25519(
                Ed25519PubKey { key: vstd::slice::slice_to_vec(k.key.as_slice()) },
            ),
            AnyPublicKey::Multisig(m) => {
                let mut members: Vec<AnyPublicKey> = Vec::new();
                let mut i: usize = 0;
                while i < m.public_keys.len()
                    invariant
                        *self == AnyPublicKey::Multisig(*m),
                        i <= m.public_keys@.len(),
                        members@.len() == i,
                        forall|j: int|
                            0 <= j < i ==> #[trigger] spec_pk_view(members@[j]) == spec_pk_view(
                                m.public_keys@[j],
                            ),
                    decreases m.public_keys@.len() - i,
                {
                    proof {
                        assert(decreases_to!(*self => self->Multisig_0));
                        assert(decreases_to!(*m => m.public_keys));
                        assert(decreases_to!(m.public_keys => m.public_keys@));
                        assert(decreases_to!(m.public_keys@ => m.public_keys@[i as int]));
                        assert(decreases_to!(*self => m.public_keys@[i as int]));
                    }
                    members.push(m.public_keys[i].clone());
                    i = i + 1;
                }
                proof {
                    lemma_pk_views_pointwise(members@, m.public_keys@);
                }
                AnyPublicKey::Multisig(
                    MultisigPubKey { threshold: m.threshold, public_keys: members },
                )
            },
        }
    }

    /// Returns whether this key is empty.
    pub fn is_empty(&self) -> (r: bool)
        ensures
            r == self.spec_is_empty(),
    {
        match self {
            AnyPublicKey::Secp256k1(k) => k.key.len() == 0,
            AnyPublicKey::Ed25519(k) => k.key.len() == 0,
            AnyPublicKey::Multisig(m) => m.threshold == 0 && m.public_keys.len() == 0,
        }
    }
}

impl Secp256k1PubKey {
    /// Verifies `signature` over `msg` under this key.
    ///
    /// Relies on `k256::ecdsa::VerifyingKey::from_sec1_bytes`,
    /// `k256::ecdsa::Signature::from_slice` and
    /// `k256::ecdsa::signature::Verifier::verify`: each is a deterministic,
    /// stateless function of the bytes it is given, so their outcomes are
    /// the named results `secp256k1_key_ok`, `secp256k1_sig_ok` and
    /// `secp256k1_sig_verifies`.
    #[verifier::external_body]
    pub fn verify_signature(&self, msg: &Vec<u8>, signature: &Vec<u8>) -> (r: Result<(), Kind>)
        ensures
            r == spec_verify_secp256k1(self.key@, msg@, signature@),
            (r is Ok) == (secp256k1_key_ok(self.key@) && secp256k1_sig_ok(signature@) && secp256k1_sig_verifies(self.key@, msg@, signature@)),
    {
        let verify_key = match k256::ecdsa::VerifyingKey::from_sec1_bytes(self.key.as_slice()) {
            Ok(verify_key) => verify_key,
            Err(_) => return Err(Kind::InvalidPubKey),
        };
        let sig = match k256::ecdsa::Signature::from_slice(signature.as_slice()) {
            Ok(sig) => sig,
            Err(_) => return Err(Kind::InvalidSignatureData),
        };
        match k256::ecdsa::signature::Verifier::verify(&verify_key, msg.as_slice(), &sig) {
            Ok(()) => Ok(()),
            Err(_) => Err(Kind::SignatureVerificationFailed),
        }
    }
}

impl Ed25519PubKey {
    /// Verifies `signature` over `msg` under this key.  A signature of any
    /// length but 64 bytes is rejected before any cryptographic check is
    /// attempted.
    pub fn verify_signature(&self, msg: &Vec<u8>, signature: &Vec<u8>) -> (r: Result<(), Kind>)
        ensures
            r == spec_verify_ed25519(self.key@, msg@, signature@),
    {
        if signature.len() != 64 {
            return Err(Kind::InvalidSignatureData);
        }
        self.verify_signature_sized(msg, signature)
    }

    /// Relies on `ed25519_dalek::VerifyingKey::from_bytes` (which accepts
    /// exactly 32 bytes naming a valid compressed point) and
    /// `ed25519_dalek::Verifier::verify`: both are deterministic, stateless
    /// functions of the bytes they are given, so their outcomes are the
    /// named results `ed25519_key_ok` and `ed25519_sig_verifies`.
    #[verifier::external_body]
    fn verify_signature_sized(&self, msg: &Vec<u8>, signature: &Vec<u8>) -> (r: Result<(), Kind>)
        requires
            signature@.len() == 64,
        ensures
            r == spec_verify_ed25519(self.key@, msg@, signature@),
            (r is Ok) == (ed25519_key_ok(self.key@) && ed25519_sig_verifies(self.key@, msg@, signature@)),
    {
        let key_bytes: [u8; 32] = match self.key.as_slice().try_into() {
            Ok(key_bytes) => key_bytes,
            Err(_) => return Err(Kind::InvalidPubKey),
        };
        let verify_key = match ed25519_dalek::VerifyingKey::from_bytes(&key_bytes) {
            Ok(verify_key) => verify_key,
            Err(_) => return Err(Kind::InvalidPubKey),
        };
        let mut sig_bytes = [0u8; 64];
        sig_bytes.copy_from_slice(signature.as_slice());
        let sig = ed25519_dalek::Signature::from_bytes(&sig_bytes);
        match ed25519_dalek::Verifier::verify(&verify_key, msg.as_slice(), &sig) {
            Ok(()) => Ok(()),
            Err(_) => Err(Kind::SignatureVerificationFailed),
        }
    }
}

impl MultisigPubKey {
    /// Verifies a multi-signature payload over `msg` under this key, as
    /// `spec_verify_multisig` states: shape checks first, then the walk
    /// pairing each set bit with the next signature in ascending order.
    pub fn verify_multi_signature(&self, msg: &Vec<u8>, signature_data: &MultiSignatureData) -> (r:
        Result<(), Kind>)
        requires
            signature_data.bit_array.well_formed(),
            spec_sds_wf(signature_data.signatures@),
        ensures
            r == spec_verify_multisig(
                self.threshold,
                spec_pk_views(self.public_keys@),
                msg@,
                signature_data.bit_array@,
                spec_sd_views(signature_data.signatures@),
            ),
        decreases *self,
    {
        let ghost members = spec_pk_views(self.public_keys@);
        let ghost bits = signature_data.bit_array@;
        let ghost sig_views = spec_sd_views(signature_data.signatures@);
        proof {
            lemma_pk_views_len(self.public_keys@);
            lemma_sd_views_len(signature_data.signatures@);
        }
        let threshold = self.threshold as usize;
        let size = signature_data.bit_array.len();
        if self.public_keys.len() != size {
            return Err(Kind::InvalidSignatureData);
        }
        let n_sigs = signature_data.signatures.len();
        if n_sigs < threshold || n_sigs > size {
            return Err(Kind::InvalidSignatureData);
        }
        if signature_data.bit_array.num_true_bits_before(size) < threshold {
            return Err(Kind::InvalidSignatureData);
        }
        let mut signature_index: usize = 0;
        let mut i: usize = 0;
        while i < size
            invariant
                size == members.len() == bits.len(),
                sig_views.len() == n_sigs as int == signature_data.signatures@.len(),
                threshold == self.threshold as usize,
                threshold <= n_sigs <= size,
                count_true_prefix(bits, size as int) >= threshold as int,
                i <= size,
                signature_index as int == count_true_prefix(bits, i as int),
                signature_index <= i,
                signature_data.bit_array.well_formed(),
                signature_data.bit_array@ == bits,
                spec_sds_wf(signature_data.signatures@),
                members == spec_pk_views(self.public_keys@),
                sig_views == spec_sd_views(signature_data.signatures@),
                self.public_keys@.len() == size,
                spec_verify_walk(members, msg@, bits, sig_views, 0) == spec_verify_walk(
                    members,
                    msg@,
                    bits,
                    sig_views,
                    i as int,
                ),
            decreases size - i,
        {
            if signature_data.bit_array.get(i) {
                if signature_index >= n_sigs {
                    return Err(Kind::InvalidSignatureData);
                }
                proof {
                    lemma_pk_views_index(self.public_keys@, i as int);
                    lemma_sd_views_index(signature_data.signatures@, signature_index as int);
                    lemma_sds_wf_index(signature_data.signatures@, signature_index as int);
                }
                let r = verify_signature(
                    &self.public_keys[i],
                    msg,
                    &signature_data.signatures[signature_index],
                );
                if let Err(e) = r {
                    return Err(e);
                }
                signature_index = signature_index + 1;
            }
            i = i + 1;
        }
        Ok(())
    }
}

/// Verifies `signature` against `public_key` over `msg`: the structural
/// dispatch of `spec_verify`.  Only the matching key/payload pairings are
/// accepted; every other pairing fails with `InvalidSignatureType` and no
/// cryptographic work is attempted.
pub fn verify_signature(public_key: &AnyPublicKey, msg: &Vec<u8>, signature: &SignatureData) -> (r:
    Result<(), Kind>)
    requires
        spec_sd_wf(*signature),
    ensures
        r == spec_verify(public_key@, msg@, signature@),
    decreases *public_key,
{
    match (public_key, signature) {
        (AnyPublicKey::Secp256k1(pk), SignatureData::Single { signature: sig }) => {
            pk.verify_signature(msg, sig)
        },
        (AnyPublicKey::Ed25519(pk), SignatureData::Single { signature: sig }) => {
            pk.verify_signature(msg, sig)
        },
        (AnyPublicKey::Multisig(pk), SignatureData::Multi(signature_data)) => {
            pk.verify_multi_signature(msg, signature_data)
        },
        _ => Err(Kind::InvalidSignatureType),
    }
}

} // verus!
