//! Canonical protobuf-style wire primitives.
//!
//! Values are framed as tagged fields: a varint tag (field number and wire
//! type), then either a varint scalar or a length-delimited payload.  The
//! encoders produce the canonical form (fields in ascending order, default
//! values omitted, minimal varints); the decoders accept exactly the bytes
//! the corresponding encoder can produce, which is what makes the wire
//! round-trip provable.

use vstd::prelude::*;

verus! {

broadcast use vstd::seq::axiom_seq_index_decreases, vstd::seq::axiom_seq_subrange_decreases;

/// Canonical little-endian base-128 varint encoding of `n`: seven value bits
/// per byte, least-significant group first, high bit set on every byte but
/// the last.
pub open spec fn spec_varint(n: u64) -> Seq<u8>
    decreases n,
{
    if n < 128 {
        seq![n as u8]
    } else {
        seq![(n % 128 + 128) as u8] + spec_varint(n / 128)
    }
}

/// Parses a minimal varint from the front of `s`: the value and the number
/// of bytes consumed.  Non-minimal encodings (a redundant zero final group)
/// and values beyond `u64::MAX` are rejected.
pub open spec fn spec_varint_decode(s: Seq<u8>) -> Option<(u64, int)>
    decreases s.len(),
{
    if s.len() == 0 {
        None
    } else if s[0] < 128 {
        Some((s[0] as u64, 1))
    } else {
        let low = s[0] as int - 128;
        match spec_varint_decode(s.skip(1)) {
            Some(mc) => {
                if 1 <= mc.0 && mc.0 * 128 + low <= u64::MAX {
                    Some(((mc.0 * 128 + low) as u64, mc.1 + 1))
                } else {
                    None
                }
            },
            None => None,
        }
    }
}

/// A varint encoding, followed by anything, parses back to exactly the
/// encoded value, consuming exactly the encoding.
pub proof fn lemma_varint_round_trip(n: u64, rest: Seq<u8>)
    ensures
        1 <= spec_varint(n).len(),
        spec_varint_decode(spec_varint(n) + rest) == Some((n, spec_varint(n).len() as int)),
        (spec_varint(n) + rest).skip(spec_varint(n).len() as int) =~= rest,
    decreases n,
{
    let s = spec_varint(n) + rest;
    if n < 128 {
        assert(s[0] == n as u8);
    } else {
        lemma_varint_round_trip(n / 128, rest);
        assert(s.skip(1) =~= spec_varint(n / 128) + rest);
        assert(n / 128 * 128 + n % 128 == n) by (nonlinear_arith);
        assert(s[0] == (n % 128 + 128) as u8);
        assert(s[0] as int - 128 == n % 128);
        assert(n >= 128 ==> 1 <= n / 128) by (nonlinear_arith);
    }
}

/// Appends the varint encoding of `n` to `out`.
pub fn encode_varint(out: &mut Vec<u8>, n: u64)
    ensures
        final(out)@ =~= old(out)@ + spec_varint(n),
{
    let mut m: u64 = n;
    while m >= 128
        invariant
            old(out)@ + spec_varint(n) =~= out@ + spec_varint(m),
        decreases m,
    {
        let ghost prev = m;
        out.push((m % 128 + 128) as u8);
        m = m / 128;
        proof {
            assert(spec_varint(prev) =~= seq![(prev % 128 + 128) as u8] + spec_varint(prev / 128));
        }
    }
    out.push(m as u8);
    proof {
        assert(spec_varint(m) =~= seq![m as u8]);
    }
}

/// Parses a varint at `pos`; the execution-level mirror of
/// [`spec_varint_decode`].
pub fn decode_varint(buf: &Vec<u8>, pos: usize) -> (r: Option<(u64, usize)>)
    requires
        pos <= buf@.len(),
    ensures
        match r {
            Some(np) => {
                &&& spec_varint_decode(buf@.skip(pos as int)) == Some(
                    (np.0, np.1 as int - pos as int),
                )
                &&& pos < np.1 <= buf@.len()
            },
            None => spec_varint_decode(buf@.skip(pos as int)) is None,
        },
    decreases buf@.len() - pos,
{
    if pos >= buf.len() {
        return None;
    }
    let b = buf[pos];
    proof {
        assert(buf@.skip(pos as int)[0] == b);
    }
    if b < 128 {
        Some((b as u64, pos + 1))
    } else {
        proof {
            assert(buf@.skip(pos as int).skip(1) =~= buf@.skip(pos as int + 1));
        }
        match decode_varint(buf, pos + 1) {
            None => None,
            Some(mp) => {
                let m = mp.0;
                let low = (b - 128) as u64;
                if 1 <= m && m <= (u64::MAX - low) / 128 {
                    proof {
                        assert(m <= (u64::MAX - low) / 128 ==> m * 128 + low <= u64::MAX)
                            by (nonlinear_arith);
                    }
                    Some((m * 128 + low, mp.1))
                } else {
                    proof {
                        assert(m > (u64::MAX - low) / 128 ==> m * 128 + low > u64::MAX)
                            by (nonlinear_arith);
                    }
                    None
                }
            },
        }
    }
}

/// A parsed varint consumes between one byte and the whole input.
pub proof fn lemma_varint_decode_bounds(s: Seq<u8>)
    ensures
        spec_varint_decode(s) matches Some(nc) ==> 1 <= nc.1 <= s.len(),
    decreases s.len(),
{
    if s.len() > 0 && s[0] >= 128 {
        lemma_varint_decode_bounds(s.skip(1));
    }
}

/// A parsed length-delimited payload and its remainder are each strictly
/// shorter than the input, and together strictly shorter still.
pub proof fn lemma_read_len_delim_bounds(s: Seq<u8>)
    ensures
        spec_read_len_delim(s) matches Some(pr) ==> pr.0.len() + pr.1.len() < s.len(),
{
    lemma_varint_decode_bounds(s);
}

/// An optional varint field either leaves the input unchanged (with the
/// default value) or consumes at least its tag.
pub proof fn lemma_dec_opt_varint_bounds(s: Seq<u8>, tag: u64)
    ensures
        spec_dec_opt_varint(s, tag) matches Some(vr) ==> vr.1 == s || vr.1.len() < s.len(),
{
    lemma_varint_decode_bounds(s);
    match spec_varint_decode(s) {
        Some(tc) => {
            if tc.0 == tag {
                lemma_varint_decode_bounds(s.skip(tc.1));
            }
        },
        None => {},
    }
}

/// An optional bytes field either leaves the input unchanged (with the
/// empty default) or yields a payload and remainder together strictly
/// shorter than the input.
pub proof fn lemma_dec_opt_bytes_bounds(s: Seq<u8>, tag: u64)
    ensures
        spec_dec_opt_bytes(s, tag) matches Some(ur) ==> (ur.0 == Seq::<u8>::empty() && ur.1 == s)
            || ur.0.len() + ur.1.len() < s.len(),
{
    lemma_varint_decode_bounds(s);
    match spec_varint_decode(s) {
        Some(tc) => {
            if tc.0 == tag {
                lemma_read_len_delim_bounds(s.skip(tc.1));
            }
        },
        None => {},
    }
}

/// Canonical encoding of a varint-typed field: omitted entirely when the
/// value is zero (the protobuf default).
pub open spec fn spec_field_varint(tag: u64, n: u64) -> Seq<u8> {
    if n == 0 {
        Seq::empty()
    } else {
        spec_varint(tag) + spec_varint(n)
    }
}

/// Canonical encoding of a bytes- or string-typed field: omitted entirely
/// when the payload is empty (the protobuf default).
pub open spec fn spec_field_bytes(tag: u64, payload: Seq<u8>) -> Seq<u8> {
    if payload.len() == 0 {
        Seq::empty()
    } else {
        spec_varint(tag) + spec_varint(payload.len() as u64) + payload
    }
}

/// Canonical encoding of an always-present embedded message field.
pub open spec fn spec_field_msg(tag: u64, payload: Seq<u8>) -> Seq<u8> {
    spec_varint(tag) + spec_varint(payload.len() as u64) + payload
}

/// Appends the canonical encoding of a varint-typed field.
pub fn encode_field_varint(out: &mut Vec<u8>, tag: u64, n: u64)
    ensures
        final(out)@ =~= old(out)@ + spec_field_varint(tag, n),
{
    if n == 0 {
        return ;
    }
    encode_varint(out, tag);
    encode_varint(out, n);
}

/// Appends every byte of `b` to `out`.
pub fn push_bytes(out: &mut Vec<u8>, b: &Vec<u8>)
    ensures
        final(out)@ =~= old(out)@ + b@,
{
    let mut i: usize = 0;
    while i < b.len()
        invariant
            i <= b@.len(),
            out@ =~= old(out)@ + b@.subrange(0, i as int),
        decreases b@.len() - i,
    {
        out.push(b[i]);
        i = i + 1;
        proof {
            assert(old(out)@ + b@.subrange(0, i as int) =~= (old(out)@ + b@.subrange(
                0,
                i as int - 1,
            )).push(b@[i as int - 1]));
        }
    }
    proof {
        assert(b@.subrange(0, b@.len() as int) =~= b@);
    }
}

/// Appends the canonical encoding of a bytes- or string-typed field.
pub fn encode_field_bytes(out: &mut Vec<u8>, tag: u64, payload: &Vec<u8>)
    ensures
        final(out)@ =~= old(out)@ + spec_field_bytes(tag, payload@),
{
    if payload.len() == 0 {
        return ;
    }
    encode_varint(out, tag);
    encode_varint(out, payload.len() as u64);
    push_bytes(out, payload);
}

/// Appends the canonical encoding of an always-present embedded message
/// field.
pub fn encode_field_msg(out: &mut Vec<u8>, tag: u64, payload: &Vec<u8>)
    ensures
        final(out)@ =~= old(out)@ + spec_field_msg(tag, payload@),
{
    encode_varint(out, tag);
    encode_varint(out, payload.len() as u64);
    push_bytes(out, payload);
}

/// Compares two byte vectors for content equality.
pub fn bytes_eq(a: &Vec<u8>, b: &Vec<u8>) -> (r: bool)
    ensures
        r == (a@ == b@),
{
    if a.len() != b.len() {
        return false;
    }
    let mut i: usize = 0;
    while i < a.len()
        invariant
            a@.len() == b@.len(),
            i <= a@.len(),
            forall|j: int| 0 <= j < i ==> a@[j] == b@[j],
        decreases a@.len() - i,
    {
        if a[i] != b[i] {
            return false;
        }
        i = i + 1;
    }
    proof {
        assert(a@ =~= b@);
    }
    true
}

/// Copies `buf[start..end]` into a fresh vector.
pub fn subvec(buf: &Vec<u8>, start: usize, end: usize) -> (r: Vec<u8>)
    requires
        start <= end <= buf@.len(),
    ensures
        r@ =~= buf@.subrange(start as int, end as int),
{
    let mut r: Vec<u8> = Vec::new();
    let mut i: usize = start;
    while i < end
        invariant
            start <= i <= end <= buf@.len(),
            r@ =~= buf@.subrange(start as int, i as int),
        decreases end - i,
    {
        r.push(buf[i]);
        i = i + 1;
        proof {
            assert(buf@.subrange(start as int, i as int) =~= buf@.subrange(
                start as int,
                i as int - 1,
            ).push(buf@[i as int - 1]));
        }
    }
    r
}

/// Parses a length-delimited payload (its length varint, then the payload):
/// the payload and what follows it.
pub open spec fn spec_read_len_delim(s: Seq<u8>) -> Option<(Seq<u8>, Seq<u8>)> {
    match spec_varint_decode(s) {
        Some(lc) => {
            if lc.1 + lc.0 <= s.len() {
                Some((s.subrange(lc.1, lc.1 + lc.0 as int), s.skip(lc.1 + lc.0 as int)))
            } else {
                None
            }
        },
        None => None,
    }
}

/// A length-prefixed payload, followed by anything, reads back as exactly
/// that payload and that remainder.
pub proof fn lemma_read_len_delim(payload: Seq<u8>, rest: Seq<u8>)
    requires
        payload.len() <= u64::MAX,
    ensures
        spec_read_len_delim(spec_varint(payload.len() as u64) + payload + rest) == Some(
            (payload, rest),
        ),
{
    let l = payload.len() as u64;
    let s = spec_varint(l) + payload + rest;
    lemma_varint_round_trip(l, payload + rest);
    assert(spec_varint(l) + payload + rest =~= spec_varint(l) + (payload + rest));
    let c = spec_varint(l).len() as int;
    assert(spec_varint_decode(s) == Some((l, c)));
    assert(s.subrange(c, c + l as int) =~= payload);
    assert(s.skip(c + l as int) =~= rest);
}

/// Parses a length-delimited payload at `pos`; the execution-level mirror of
/// [`spec_read_len_delim`].
pub fn read_len_delim(buf: &Vec<u8>, pos: usize) -> (r: Option<(Vec<u8>, usize)>)
    requires
        pos <= buf@.len(),
    ensures
        match r {
            Some(vp) => {
                &&& spec_read_len_delim(buf@.skip(pos as int)) matches Some(sr) && sr.0 =~= vp.0@
                    && sr.1 =~= buf@.skip(vp.1 as int)
                &&& pos <= vp.1 <= buf@.len()
            },
            None => spec_read_len_delim(buf@.skip(pos as int)) is None,
        },
{
    match decode_varint(buf, pos) {
        None => None,
        Some(lp) => {
            let l = lp.0;
            let after_len = lp.1;
            if l <= (buf.len() - after_len) as u64 {
                let end = after_len + (l as usize);
                let payload = subvec(buf, after_len, end);
                proof {
                    let s = buf@.skip(pos as int);
                    let c = after_len as int - pos as int;
                    assert(s.subrange(c, c + l as int) =~= buf@.subrange(
                        after_len as int,
                        end as int,
                    ));
                    assert(s.skip(c + l as int) =~= buf@.skip(end as int));
                }
                Some((payload, end))
            } else {
                None
            }
        },
    }
}

/// Parses an optional varint-typed field: when the next field has tag `tag`
/// its value and the remainder, otherwise the protobuf default (zero) and
/// the input unchanged.
pub open spec fn spec_dec_opt_varint(s: Seq<u8>, tag: u64) -> Option<(u64, Seq<u8>)> {
    match spec_varint_decode(s) {
        Some(tc) => {
            if tc.0 == tag {
                match spec_varint_decode(s.skip(tc.1)) {
                    Some(vc) => Some((vc.0, s.skip(tc.1 + vc.1))),
                    None => None,
                }
            } else {
                Some((0, s))
            }
        },
        None => Some((0, s)),
    }
}

/// Parses an optional bytes- or string-typed field: when the next field has
/// tag `tag` its payload and the remainder, otherwise the protobuf default
/// (empty) and the input unchanged.
pub open spec fn spec_dec_opt_bytes(s: Seq<u8>, tag: u64) -> Option<(Seq<u8>, Seq<u8>)> {
    match spec_varint_decode(s) {
        Some(tc) => {
            if tc.0 == tag {
                spec_read_len_delim(s.skip(tc.1))
            } else {
                Some((Seq::empty(), s))
            }
        },
        None => Some((Seq::empty(), s)),
    }
}

/// An encoded optional varint field parses back to its value: when `n` is
/// nonzero the field is present, and when it is absent the remainder must
/// not begin with this field's tag.
pub proof fn lemma_dec_opt_varint(tag: u64, n: u64, rest: Seq<u8>)
    requires
        n != 0 || (match spec_varint_decode(rest) {
            Some(tc) => tc.0 != tag,
            None => true,
        }),
    ensures
        spec_dec_opt_varint(spec_field_varint(tag, n) + rest, tag) == Some((n, rest)),
{
    if n == 0 {
        assert(spec_field_varint(tag, n) + rest =~= rest);
    } else {
        let s = spec_field_varint(tag, n) + rest;
        lemma_varint_round_trip(tag, spec_varint(n) + rest);
        assert(s =~= spec_varint(tag) + (spec_varint(n) + rest));
        let c = spec_varint(tag).len() as int;
        assert(s.skip(c) =~= spec_varint(n) + rest);
        lemma_varint_round_trip(n, rest);
        let c2 = spec_varint(n).len() as int;
        assert(s.skip(c).skip(c2) =~= s.skip(c + c2));
    }
}

/// An encoded optional bytes field parses back to its payload: when the
/// payload is nonempty the field is present, and when it is absent the
/// remainder must not begin with this field's tag.
pub proof fn lemma_dec_opt_bytes(tag: u64, payload: Seq<u8>, rest: Seq<u8>)
    requires
        payload.len() <= u64::MAX,
        payload.len() != 0 || (match spec_varint_decode(rest) {
            Some(tc) => tc.0 != tag,
            None => true,
        }),
    ensures
        spec_dec_opt_bytes(spec_field_bytes(tag, payload) + rest, tag) == Some((payload, rest)),
{
    if payload.len() == 0 {
        assert(spec_field_bytes(tag, payload) + rest =~= rest);
    } else {
        let s = spec_field_bytes(tag, payload) + rest;
        lemma_varint_round_trip(tag, spec_varint(payload.len() as u64) + payload + rest);
        assert(s =~= spec_varint(tag) + (spec_varint(payload.len() as u64) + payload + rest));
        let c = spec_varint(tag).len() as int;
        assert(s.skip(c) =~= spec_varint(payload.len() as u64) + payload + rest);
        lemma_read_len_delim(payload, rest);
    }
}

/// An encoded embedded-message field parses back to its payload and the
/// remainder once its tag has been read.
pub proof fn lemma_dec_field_msg(tag: u64, payload: Seq<u8>, rest: Seq<u8>)
    requires
        payload.len() <= u64::MAX,
    ensures
        spec_varint_decode(spec_field_msg(tag, payload) + rest) == Some(
            (tag, spec_varint(tag).len() as int),
        ),
        spec_read_len_delim(
            (spec_field_msg(tag, payload) + rest).skip(spec_varint(tag).len() as int),
        ) == Some((payload, rest)),
{
    let s = spec_field_msg(tag, payload) + rest;
    lemma_varint_round_trip(tag, spec_varint(payload.len() as u64) + payload + rest);
    assert(s =~= spec_varint(tag) + (spec_varint(payload.len() as u64) + payload + rest));
    let c = spec_varint(tag).len() as int;
    assert(s.skip(c) =~= spec_varint(payload.len() as u64) + payload + rest);
    lemma_read_len_delim(payload, rest);
}

/// Parses an optional varint-typed field at `pos`; the execution-level
/// mirror of [`spec_dec_opt_varint`].
pub fn read_opt_varint(buf: &Vec<u8>, pos: usize, tag: u64) -> (r: Option<(u64, usize)>)
    requires
        pos <= buf@.len(),
    ensures
        match r {
            Some(vp) => {
                &&& spec_dec_opt_varint(buf@.skip(pos as int), tag) == Some(
                    (vp.0, buf@.skip(vp.1 as int)),
                )
                &&& pos <= vp.1 <= buf@.len()
            },
            None => spec_dec_opt_varint(buf@.skip(pos as int), tag) is None,
        },
{
    match decode_varint(buf, pos) {
        None => Some((0, pos)),
        Some(tp) => {
            if tp.0 != tag {
                Some((0, pos))
            } else {
                proof {
                    assert(buf@.skip(pos as int).skip(tp.1 as int - pos as int) =~= buf@.skip(
                        tp.1 as int,
                    ));
                }
                match decode_varint(buf, tp.1) {
                    None => None,
                    Some(vp) => {
                        proof {
                            let s = buf@.skip(pos as int);
                            let c = tp.1 as int - pos as int;
                            assert(s.skip(c + (vp.1 as int - tp.1 as int)) =~= buf@.skip(
                                vp.1 as int,
                            ));
                        }
                        Some((vp.0, vp.1))
                    },
                }
            }
        },
    }
}

/// Parses an optional bytes- or string-typed field at `pos`; the
/// execution-level mirror of [`spec_dec_opt_bytes`].
pub fn read_opt_bytes(buf: &Vec<u8>, pos: usize, tag: u64) -> (r: Option<(Vec<u8>, usize)>)
    requires
        pos <= buf@.len(),
    ensures
        match r {
            Some(vp) => {
                &&& spec_dec_opt_bytes(buf@.skip(pos as int), tag) matches Some(sr) && sr.0
                    =~= vp.0@ && sr.1 =~= buf@.skip(vp.1 as int)
                &&& pos <= vp.1 <= buf@.len()
            },
            None => spec_dec_opt_bytes(buf@.skip(pos as int), tag) is None,
        },
{
    match decode_varint(buf, pos) {
        None => Some((Vec::new(), pos)),
        Some(tp) => {
            if tp.0 != tag {
                Some((Vec::new(), pos))
            } else {
                proof {
                    assert(buf@.skip(pos as int).skip(tp.1 as int - pos as int) =~= buf@.skip(
                        tp.1 as int,
                    ));
                }
                read_len_delim(buf, tp.1)
            }
        },
    }
}

} // verus!
