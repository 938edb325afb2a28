//! Canonical wire codec for the signature payload carried in a header: a
//! one-of envelope holding either a single signature or a multi-signature
//! (a signer bitmap plus nested payloads).

use vstd::prelude::*;

use crate::client::bit_array::{spec_bits_view, spec_bits_wf, BitArray};
use crate::client::codec::{spec_dec_bit_array, spec_enc_bit_array};
use crate::client::crypto::{
    lemma_sd_views_len, lemma_sd_views_push, lemma_sds_wf_push, spec_sd_view, spec_sd_views,
    spec_sd_wf, spec_sds_wf, MultiSignatureData, SignatureData, SignatureDataView,
};
use crate::client::error::Kind;
use crate::wire::{
    decode_varint, encode_field_msg, lemma_read_len_delim_bounds, lemma_varint_decode_bounds,
    read_len_delim, read_opt_bytes, read_opt_varint, spec_dec_opt_bytes, spec_dec_opt_varint,
    spec_field_bytes, spec_field_msg, spec_read_len_delim, spec_varint_decode,
};

verus! {

/// Canonical encoding of a signature payload in its one-of envelope.
pub open spec fn spec_enc_signature_data(sd: SignatureData) -> Seq<u8>
    decreases sd, 2int,
{
    match sd {
        SignatureData::Single { signature } => spec_field_msg(
            10,
            spec_field_bytes(18, signature@),
        ),
        SignatureData::Multi(m) => spec_field_msg(18, spec_enc_multi_signature_data(m)),
    }
}

/// Canonical encoding of a multi-signature payload: the signer bitmap,
/// then each nested payload as a repeated field.
pub open spec fn spec_enc_multi_signature_data(m: MultiSignatureData) -> Seq<u8>
    decreases m, 2int,
{
    spec_field_msg(10, spec_enc_bit_array(m.bit_array.extra_bits_stored, m.bit_array.elems@))
        + spec_enc_signature_list(m.signatures@, 0)
}

/// Canonical encoding of the nested payloads from index `i` on.
pub open spec fn spec_enc_signature_list(sds: Seq<SignatureData>, i: int) -> Seq<u8>
    decreases sds, sds.len() - i,
{
    if i < 0 || i >= sds.len() {
        Seq::empty()
    } else {
        spec_field_msg(18, spec_enc_signature_data(sds[i])) + spec_enc_signature_list(sds, i + 1)
    }
}

/// Canonical parsing of a signature payload's one-of envelope.  Bytes
/// holding no payload at all are a missing payload, not merely malformed
/// data.
pub open spec fn spec_dec_signature_data(s: Seq<u8>) -> Result<SignatureDataView, Kind>
    decreases s.len(), 2int,
    via spec_dec_signature_data_dec
{
    if s.len() == 0 {
        Err(Kind::InvalidHeader)
    } else {
        match spec_varint_decode(s) {
            Some(tc) => {
                if tc.0 == 10 {
                    match spec_read_len_delim(s.skip(tc.1)) {
                        Some(pr) => {
                            if pr.1.len() != 0 {
                                Err(Kind::InvalidSignatureData)
                            } else {
                                spec_dec_single_signature(pr.0)
                            }
                        },
                        None => Err(Kind::InvalidSignatureData),
                    }
                } else if tc.0 == 18 {
                    match spec_read_len_delim(s.skip(tc.1)) {
                        Some(pr) => {
                            if pr.1.len() != 0 {
                                Err(Kind::InvalidSignatureData)
                            } else {
                                spec_dec_multi_signature(pr.0)
                            }
                        },
                        None => Err(Kind::InvalidSignatureData),
                    }
                } else {
                    Err(Kind::InvalidSignatureData)
                }
            },
            None => Err(Kind::InvalidSignatureData),
        }
    }
}

#[via_fn]
proof fn spec_dec_signature_data_dec(s: Seq<u8>) {
    if s.len() != 0 {
        lemma_varint_decode_bounds(s);
        match spec_varint_decode(s) {
            Some(tc) => {
                lemma_read_len_delim_bounds(s.skip(tc.1));
            },
            None => {},
        }
    }
}

/// Canonical parsing of a single-signature message; a signing-mode field
/// is accepted and ignored.
pub open spec fn spec_dec_single_signature(s: Seq<u8>) -> Result<SignatureDataView, Kind> {
    match spec_dec_opt_varint(s, 8) {
        Some(mr) => match spec_dec_opt_bytes(mr.1, 18) {
            Some(sr) => {
                if sr.1.len() == 0 {
                    Ok(SignatureDataView::Single(sr.0))
                } else {
                    Err(Kind::InvalidSignatureData)
                }
            },
            None => Err(Kind::InvalidSignatureData),
        },
        None => Err(Kind::InvalidSignatureData),
    }
}

/// Canonical parsing of a multi-signature message: a structurally valid
/// signer bitmap, then the nested payloads.
pub open spec fn spec_dec_multi_signature(s: Seq<u8>) -> Result<SignatureDataView, Kind>
    decreases s.len(), 1int,
    via spec_dec_multi_signature_dec
{
    match spec_dec_opt_bytes(s, 10) {
        Some(br) => match spec_dec_bit_array(br.0) {
            Some(ba) => {
                if !spec_bits_wf(ba.0, ba.1) {
                    Err(Kind::InvalidSignatureData)
                } else {
                    match spec_dec_signature_list(br.1) {
                        Ok(sigs) => Ok(
                            SignatureDataView::Multi {
                                bit_array: spec_bits_view(ba.0, ba.1),
                                signatures: sigs,
                            },
                        ),
                        Err(e) => Err(e),
                    }
                }
            },
            None => Err(Kind::InvalidSignatureData),
        },
        None => Err(Kind::InvalidSignatureData),
    }
}

#[via_fn]
proof fn spec_dec_multi_signature_dec(s: Seq<u8>) {
    crate::wire::lemma_dec_opt_bytes_bounds(s, 10);
}

/// Canonical parsing of the remaining nested payloads.
pub open spec fn spec_dec_signature_list(s: Seq<u8>) -> Result<Seq<SignatureDataView>, Kind>
    decreases s.len(), 0int,
    via spec_dec_signature_list_dec
{
    if s.len() == 0 {
        Ok(Seq::empty())
    } else {
        match spec_varint_decode(s) {
            Some(tc) => {
                if tc.0 != 18 {
                    Err(Kind::InvalidSignatureData)
                } else {
                    match spec_read_len_delim(s.skip(tc.1)) {
                        Some(pr) => match spec_dec_signature_data(pr.0) {
                            Ok(sd) => match spec_dec_signature_list(pr.1) {
                                Ok(rest) => Ok(seq![sd] + rest),
                                Err(e) => Err(e),
                            },
                            Err(e) => Err(e),
                        },
                        None => Err(Kind::InvalidSignatureData),
                    }
                }
            },
            None => Err(Kind::InvalidSignatureData),
        }
    }
}

#[via_fn]
proof fn spec_dec_signature_list_dec(s: Seq<u8>) {
    if s.len() != 0 {
        lemma_varint_decode_bounds(s);
        match spec_varint_decode(s) {
            Some(tc) => {
                lemma_read_len_delim_bounds(s.skip(tc.1));
            },
            None => {},
        }
    }
}

impl SignatureData {
    /// Canonical wire encoding of this payload's one-of envelope.
    pub fn encode_vec(&self) -> (r: Vec<u8>)
        ensures
            r@ == spec_enc_signature_data(*self),
        decreases *self,
    {
        let mut out: Vec<u8> = Vec::new();
        match self {
            SignatureData::Single { signature } => {
                let mut value: Vec<u8> = Vec::new();
                crate::wire::encode_field_bytes(&mut value, 18, signature);
                encode_field_msg(&mut out, 10, &value);
                proof {
                    assert(out@ =~= spec_enc_signature_data(*self));
                }
            },
            SignatureData::Multi(m) => {
                let mut value: Vec<u8> = Vec::new();
                let bitmap_bytes = m.bit_array.encode_vec();
                encode_field_msg(&mut value, 10, &bitmap_bytes);
                let mut i: usize = 0;
                while i < m.signatures.len()
                    invariant
                        *self == SignatureData::Multi(*m),
                        i <= m.signatures@.len(),
                        value@ + spec_enc_signature_list(m.signatures@, i as int) == spec_field_msg(
                            10,
                            spec_enc_bit_array(
                                m.bit_array.extra_bits_stored,
                                m.bit_array.elems@,
                            ),
                        ) + spec_enc_signature_list(m.signatures@, 0),
                    decreases m.signatures@.len() - i,
                {
                    proof {
                        assert(decreases_to!(*self => self->Multi_0));
                        assert(decreases_to!(*m => m.signatures));
                        assert(decreases_to!(m.signatures => m.signatures@));
                        assert(decreases_to!(m.signatures@ => m.signatures@[i as int]));
                        assert(decreases_to!(*self => m.signatures@[i as int]));
                    }
                    let ghost value_before = value@;
                    let nested = m.signatures[i].encode_vec();
                    encode_field_msg(&mut value, 18, &nested);
                    i = i + 1;
                    proof {
                        assert(spec_enc_signature_list(m.signatures@, i as int - 1)
                            == spec_field_msg(
                            18,
                            spec_enc_signature_data(m.signatures@[i as int - 1]),
                        ) + spec_enc_signature_list(m.signatures@, i as int));
                        assert(value_before + spec_enc_signature_list(m.signatures@, i as int - 1)
                            =~= value@ + spec_enc_signature_list(m.signatures@, i as int));
                    }
                }
                proof {
                    assert(spec_enc_signature_list(m.signatures@, m.signatures@.len() as int)
                        == Seq::<u8>::empty());
                    assert(value@ + Seq::<u8>::empty() =~= value@);
                    assert(value@ =~= spec_enc_multi_signature_data(*m));
                }
                encode_field_msg(&mut out, 18, &value);
                proof {
                    assert(out@ =~= spec_enc_signature_data(*self));
                }
            },
        }
        out
    }

    /// Parses a signature payload from its canonical one-of envelope.
    /// Every bitmap in the result is structurally valid.
    pub fn decode_vec(bytes: &Vec<u8>) -> (r: Result<SignatureData, Kind>)
        ensures
            (r is Ok) == (spec_dec_signature_data(bytes@) is Ok),
            r matches Ok(sd) ==> spec_dec_signature_data(bytes@) == Ok::<SignatureDataView, Kind>(
                sd@,
            ) && spec_sd_wf(sd),
            r matches Err(e) ==> spec_dec_signature_data(bytes@) == Err::<SignatureDataView, Kind>(
                e,
            ),
        decreases bytes@.len(), 2int,
    {
        if bytes.len() == 0 {
            return Err(Kind::InvalidHeader);
        }
        proof {
            assert(bytes@.skip(0) =~= bytes@);
        }
        let tc = match decode_varint(bytes, 0) {
            Some(tc) => tc,
            None => {
                return Err(Kind::InvalidSignatureData);
            },
        };
        if tc.0 != 10 && tc.0 != 18 {
            return Err(Kind::InvalidSignatureData);
        }
        let pr = match read_len_delim(bytes, tc.1) {
            Some(pr) => pr,
            None => {
                return Err(Kind::InvalidSignatureData);
            },
        };
        let (payload, newpos) = pr;
        if newpos != bytes.len() {
            return Err(Kind::InvalidSignatureData);
        }
        proof {
            lemma_read_len_delim_bounds(bytes@.skip(tc.1 as int));
            assert(payload@.len() < bytes@.len());
        }
        if tc.0 == 10 {
            SignatureData::decode_single_signature_value(&payload)
        } else {
            SignatureData::decode_multi_signature_value(&payload)
        }
    }

    /// Parses a single-signature message; a signing-mode field is accepted
    /// and ignored.
    fn decode_single_signature_value(value: &Vec<u8>) -> (r: Result<SignatureData, Kind>)
        ensures
            (r is Ok) == (spec_dec_single_signature(value@) is Ok),
            r matches Ok(sd) ==> spec_dec_single_signature(value@) == Ok::<
                SignatureDataView,
                Kind,
            >(sd@) && spec_sd_wf(sd),
            r matches Err(e) ==> spec_dec_single_signature(value@) == Err::<
                SignatureDataView,
                Kind,
            >(e),
    {
        proof {
            assert(value@.skip(0) =~= value@);
        }
        let mr = match read_opt_varint(value, 0, 8) {
            Some(mr) => mr,
            None => {
                return Err(Kind::InvalidSignatureData);
            },
        };
        let sr = match read_opt_bytes(value, mr.1, 18) {
            Some(sr) => sr,
            None => {
                return Err(Kind::InvalidSignatureData);
            },
        };
        let (signature, spos) = sr;
        if spos != value.len() {
            return Err(Kind::InvalidSignatureData);
        }
        Ok(SignatureData::Single { signature })
    }

    /// Parses a multi-signature message: the signer bitmap, then the
    /// nested payloads.
    fn decode_multi_signature_value(value: &Vec<u8>) -> (r: Result<SignatureData, Kind>)
        ensures
            (r is Ok) == (spec_dec_multi_signature(value@) is Ok),
            r matches Ok(sd) ==> spec_dec_multi_signature(value@) == Ok::<
                SignatureDataView,
                Kind,
            >(sd@) && spec_sd_wf(sd),
            r matches Err(e) ==> spec_dec_multi_signature(value@) == Err::<
                SignatureDataView,
                Kind,
            >(e),
        decreases value@.len(), 1int,
    {
        proof {
            assert(value@.skip(0) =~= value@);
        }
        let br = match read_opt_bytes(value, 0, 10) {
            Some(br) => br,
            None => {
                return Err(Kind::InvalidSignatureData);
            },
        };
        let (bitmap_bytes, start) = br;
        let bit_array = match BitArray::decode_vec(&bitmap_bytes) {
            Ok(bit_array) => bit_array,
            Err(e) => {
                return Err(e);
            },
        };
        let mut signatures: Vec<SignatureData> = Vec::new();
        let mut pos = start;
        proof {
            assert(spec_sd_views(signatures@) == Seq::<SignatureDataView>::empty());
            assert(spec_sds_wf(signatures@));
        }
        while pos < value.len()
            invariant
                start <= pos <= value@.len(),
                spec_dec_opt_bytes(value@, 10) == Some((bitmap_bytes@, value@.skip(start as int))),
                spec_dec_bit_array(bitmap_bytes@) == Some(
                    (bit_array.extra_bits_stored, bit_array.elems@),
                ),
                bit_array.well_formed(),
                spec_sds_wf(signatures@),
                spec_sd_views(signatures@).len() == signatures@.len(),
                match spec_dec_signature_list(value@.skip(pos as int)) {
                    Ok(rest) => spec_dec_signature_list(value@.skip(start as int)) == Ok::<
                        Seq<SignatureDataView>,
                        Kind,
                    >(spec_sd_views(signatures@) + rest),
                    Err(e) => spec_dec_signature_list(value@.skip(start as int)) == Err::<
                        Seq<SignatureDataView>,
                        Kind,
                    >(e),
                },
            decreases value@.len() - pos,
        {
            let ghost suffix = value@.skip(pos as int);
            proof {
                assert(suffix.len() > 0);
            }
            let t = match decode_varint(value, pos) {
                Some(t) => t,
                None => {
                    return Err(Kind::InvalidSignatureData);
                },
            };
            if t.0 != 18 {
                return Err(Kind::InvalidSignatureData);
            }
            proof {
                assert(value@.skip(pos as int).skip(t.1 as int - pos as int) =~= value@.skip(
                    t.1 as int,
                ));
            }
            let pr = match read_len_delim(value, t.1) {
                Some(pr) => pr,
                None => {
                    return Err(Kind::InvalidSignatureData);
                },
            };
            let (nested_bytes, newpos) = pr;
            proof {
                lemma_varint_decode_bounds(suffix);
                lemma_read_len_delim_bounds(value@.skip(t.1 as int));
                assert(nested_bytes@.len() < value@.len());
            }
            let nested = match SignatureData::decode_vec(&nested_bytes) {
                Ok(nested) => nested,
                Err(e) => {
                    return Err(e);
                },
            };
            let ghost sigs_before = signatures@;
            signatures.push(nested);
            pos = newpos;
            proof {
                lemma_sd_views_push(sigs_before, nested);
                lemma_sd_views_len(signatures@);
                lemma_sds_wf_push(sigs_before, nested);
                assert(signatures@ == sigs_before.push(nested));
                match spec_dec_signature_list(value@.skip(pos as int)) {
                    Ok(rest) => {
                        assert(spec_dec_signature_list(suffix) == Ok::<
                            Seq<SignatureDataView>,
                            Kind,
                        >(seq![nested@] + rest));
                        assert(spec_sd_views(sigs_before) + (seq![nested@] + rest)
                            =~= spec_sd_views(signatures@) + rest);
                    },
                    Err(e) => {
                        assert(spec_dec_signature_list(suffix) == Err::<
                            Seq<SignatureDataView>,
                            Kind,
                        >(e));
                    },
                }
            }
        }
        proof {
            assert(value@.skip(value@.len() as int) =~= Seq::<u8>::empty());
            assert(spec_dec_signature_list(value@.skip(pos as int)) == Ok::<
                Seq<SignatureDataView>,
                Kind,
            >(Seq::<SignatureDataView>::empty()));
            assert(spec_sd_views(signatures@) + Seq::<SignatureDataView>::empty()
                =~= spec_sd_views(signatures@));
        }
        Ok(SignatureData::Multi(MultiSignatureData { bit_array, signatures }))
    }
}

} // verus!
