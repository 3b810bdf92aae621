//! The compact signed-token format: `base64url(header) "." base64url(claims)
//! "." signature`, signed with HMAC-SHA256 under a shared secret.
//!
//! Issuing and validating are verified against an exact description of the
//! token bytes; only the HMAC itself and the base64 engine are trusted.

use vstd::prelude::*;

use crate::base64url::{
    b64url_decode, b64url_encode, b64url_of, is_b64url_byte, lemma_b64url_alphabet,
};
use crate::claims::{
    lemma_parse_ser_claims, lemma_ser_of_parse_claims, parse_claims, ser_claims, spec_parse_claims,
    spec_ser_claims, vec_eq,
};
use crate::errors::BackendError;
use crate::textform::sub_vec;

verus! {

pub const DOT: u8 = 46;

/// How long issued claims stay valid: 24 hours, in seconds.
pub const VALIDITY_SECONDS: u64 = 86400;

/// The bytes of the fixed header `{"typ":"JWT","alg":"HS256"}`.
pub open spec fn header_json() -> Seq<u8> {
    seq![
        123u8, 34, 116, 121, 112, 34, 58, 34, 74, 87, 84, 34, 44, 34, 97, 108, 103, 34, 58, 34,
        72, 83, 50, 53, 54, 34, 125,
    ]
}

pub fn header_json_vec() -> (r: Vec<u8>)
    ensures
        r@ == header_json(),
{
    let mut v: Vec<u8> = Vec::new();
    v.push(123);
    v.push(34);
    v.push(116);
    v.push(121);
    v.push(112);
    v.push(34);
    v.push(58);
    v.push(34);
    v.push(74);
    v.push(87);
    v.push(84);
    v.push(34);
    v.push(44);
    v.push(34);
    v.push(97);
    v.push(108);
    v.push(103);
    v.push(34);
    v.push(58);
    v.push(34);
    v.push(72);
    v.push(83);
    v.push(50);
    v.push(53);
    v.push(54);
    v.push(34);
    v.push(125);
    assert(v@ =~= header_json());
    v
}

/// The base64url signature bytes that HMAC-SHA256 under `secret` assigns to
/// `message`.  The digest itself is not modelled; the name stands for the
/// one result the algorithm computes for these arguments.
pub uninterp spec fn hs256_of(message: Seq<u8>, secret: Seq<u8>) -> Seq<u8>;

/// Relies on `jsonwebtoken::crypto::sign` with `Algorithm::HS256`: it returns
/// the base64url encoding of the HMAC-SHA256 tag of the message under the
/// secret, a pure function of the two arguments; for the HMAC algorithms its
/// source always returns `Ok`, so the unwrap cannot panic.
#[verifier::external_body]
pub(crate) fn hs256_sign(message: &Vec<u8>, secret: &Vec<u8>) -> (r: Vec<u8>)
    ensures
        r@ == hs256_of(message@, secret@),
        forall|j: int| 0 <= j < r@.len() ==> is_b64url_byte(#[trigger] r@[j]),
{
    jsonwebtoken::crypto::sign(
        message.as_slice(),
        &jsonwebtoken::EncodingKey::from_secret(secret.as_slice()),
        jsonwebtoken::Algorithm::HS256,
    ).unwrap().into_bytes()
}

/// Relies on `jsonwebtoken::crypto::verify` with `Algorithm::HS256`: its
/// source recomputes the signature with `sign` and compares the two base64
/// strings byte for byte, so it returns true exactly when `sig` equals the
/// signature `sign` would produce.  A non-UTF-8 `sig` differs from any such
/// ASCII string, so `false` is returned for it directly.
#[verifier::external_body]
pub(crate) fn hs256_verify(sig: &Vec<u8>, message: &Vec<u8>, secret: &Vec<u8>) -> (r: bool)
    ensures
        r == (sig@ == hs256_of(message@, secret@)),
{
    match std::str::from_utf8(sig.as_slice()) {
        Ok(s) => jsonwebtoken::crypto::verify(
            s,
            message.as_slice(),
            &jsonwebtoken::DecodingKey::from_secret(secret.as_slice()),
            jsonwebtoken::Algorithm::HS256,
        ).unwrap_or(false),
        Err(_) => false,
    }
}

/// Relies on `String::from_utf8`: it succeeds exactly on valid UTF-8 input
/// and returns the string those bytes encode.
#[verifier::external_body]
pub(crate) fn string_from_utf8(v: Vec<u8>) -> (r: Option<String>)
    ensures
        r matches Some(s) ==> vstd::utf8::valid_utf8(v@) && s@ == vstd::utf8::decode_utf8(v@),
        vstd::utf8::valid_utf8(v@) ==> r is Some,
{
    String::from_utf8(v).ok()
}

/// A byte sequence made only of ASCII bytes is valid UTF-8.
pub proof fn lemma_ascii_valid_utf8(s: Seq<u8>)
    requires
        forall|j: int| 0 <= j < s.len() ==> #[trigger] s[j] < 128,
    ensures
        vstd::utf8::valid_utf8(s),
{
    assert(s.subrange(0, 0) =~= Seq::<u8>::empty());
    assert(vstd::utf8::valid_utf8(s.subrange(0, 0)));
    assert(vstd::utf8::partial_valid_utf8(s, 0));
    assert(forall|i: int|
        0 <= i < s.len() ==> vstd::utf8::is_leading_byte_width_1(#[trigger] s[i]));
    vstd::utf8::partial_valid_utf8_extend_ascii_block(s, 0, s.len() as int);
    assert(s.subrange(0, s.len() as int) =~= s);
}

// ---------------------------------------------------------------------------
// The token shape.
// ---------------------------------------------------------------------------

/// The part of the token that is signed.
pub open spec fn spec_signing_input(data: Seq<u8>, iat: u64, exp: u64) -> Seq<u8> {
    b64url_of(header_json()) + seq![DOT] + b64url_of(spec_ser_claims(data, exp, iat))
}

/// The one token this codec assigns to a payload, a validity window and a
/// secret.
pub open spec fn spec_token(data: Seq<u8>, iat: u64, exp: u64, secret: Seq<u8>) -> Seq<u8> {
    spec_signing_input(data, iat, exp) + seq![DOT] + hs256_of(
        spec_signing_input(data, iat, exp),
        secret,
    )
}

/// The index of the first dot.
pub open spec fn spec_find_dot(s: Seq<u8>) -> Option<int>
    decreases s.len(),
{
    if s.len() == 0 {
        None
    } else if s[0] == DOT {
        Some(0)
    } else {
        match spec_find_dot(s.subrange(1, s.len() as int)) {
            Some(i) => Some(i + 1),
            None => None,
        }
    }
}

pub proof fn lemma_find_dot_sound(s: Seq<u8>)
    requires
        spec_find_dot(s) is Some,
    ensures
        0 <= spec_find_dot(s)->Some_0 < s.len(),
        s[spec_find_dot(s)->Some_0] == DOT,
        forall|k: int| 0 <= k < spec_find_dot(s)->Some_0 ==> #[trigger] s[k] != DOT,
    decreases s.len(),
{
    if s[0] == DOT {
    } else {
        let s1 = s.subrange(1, s.len() as int);
        lemma_find_dot_sound(s1);
        let i = spec_find_dot(s)->Some_0;
        assert(spec_find_dot(s1) == Some(i - 1));
        assert(s[i] == s1[i - 1]);
        assert forall|k: int| 0 <= k < i implies #[trigger] s[k] != DOT by {
            if k > 0 {
                assert(s[k] == s1[k - 1]);
            }
        }
    }
}

/// A dot-free prefix puts the first dot exactly at its end.
pub proof fn lemma_find_dot_exact(x: Seq<u8>, y: Seq<u8>)
    requires
        forall|k: int| 0 <= k < x.len() ==> #[trigger] x[k] != DOT,
    ensures
        spec_find_dot(x + seq![DOT] + y) == Some(x.len() as int),
    decreases x.len(),
{
    let s = x + seq![DOT] + y;
    if x.len() == 0 {
        assert(s[0] == DOT);
    } else {
        assert(s[0] == x[0]);
        let x1 = x.subrange(1, x.len() as int);
        lemma_find_dot_exact(x1, y);
        assert(s.subrange(1, s.len() as int) =~= x1 + seq![DOT] + y);
    }
}

/// The three parts of a token: everything before the first dot, everything
/// between the first and the second dot, and everything after the second.
pub open spec fn spec_split3(t: Seq<u8>) -> Option<(Seq<u8>, Seq<u8>, Seq<u8>)> {
    match spec_find_dot(t) {
        None => None,
        Some(i) => match spec_find_dot(t.subrange(i + 1, t.len() as int)) {
            None => None,
            Some(j) => Some(
                (
                    t.subrange(0, i),
                    t.subrange(i + 1, i + 1 + j),
                    t.subrange(i + 2 + j, t.len() as int),
                ),
            ),
        },
    }
}

/// Splitting a well-formed token recovers its parts.
pub proof fn lemma_split3_exact(h: Seq<u8>, p: Seq<u8>, s: Seq<u8>)
    requires
        forall|k: int| 0 <= k < h.len() ==> #[trigger] h[k] != DOT,
        forall|k: int| 0 <= k < p.len() ==> #[trigger] p[k] != DOT,
    ensures
        spec_split3(h + seq![DOT] + p + seq![DOT] + s) == Some((h, p, s)),
{
    let t = h + seq![DOT] + p + seq![DOT] + s;
    assert(t =~= h + seq![DOT] + (p + seq![DOT] + s));
    lemma_find_dot_exact(h, p + seq![DOT] + s);
    let i = h.len() as int;
    assert(t.subrange(i + 1, t.len() as int) =~= p + seq![DOT] + s);
    lemma_find_dot_exact(p, s);
    let j = p.len() as int;
    assert(t.subrange(0, i) =~= h);
    assert(t.subrange(i + 1, i + 1 + j) =~= p);
    assert(t.subrange(i + 2 + j, t.len() as int) =~= s);
}

/// Splitting succeeds only on byte strings of the three-part shape.
pub proof fn lemma_split3_sound(t: Seq<u8>)
    requires
        spec_split3(t) is Some,
    ensures
        t == spec_split3(t)->Some_0.0 + seq![DOT] + spec_split3(t)->Some_0.1 + seq![DOT]
            + spec_split3(t)->Some_0.2,
        forall|k: int|
            0 <= k < spec_split3(t)->Some_0.0.len() ==> #[trigger] spec_split3(
                t,
            )->Some_0.0[k] != DOT,
        forall|k: int|
            0 <= k < spec_split3(t)->Some_0.1.len() ==> #[trigger] spec_split3(
                t,
            )->Some_0.1[k] != DOT,
{
    let i = spec_find_dot(t)->Some_0;
    lemma_find_dot_sound(t);
    let rest = t.subrange(i + 1, t.len() as int);
    let j = spec_find_dot(rest)->Some_0;
    lemma_find_dot_sound(rest);
    let parts = spec_split3(t)->Some_0;
    assert(t =~= parts.0 + seq![DOT] + parts.1 + seq![DOT] + parts.2);
    assert(forall|k: int| 0 <= k < parts.0.len() ==> #[trigger] parts.0[k] == t[k]);
    assert(forall|k: int| 0 <= k < parts.1.len() ==> #[trigger] parts.1[k] == rest[k]);
}

/// Executable mirror of `spec_find_dot`.
pub fn find_dot(s: &Vec<u8>) -> (r: Option<usize>)
    ensures
        r is Some <==> spec_find_dot(s@) is Some,
        r matches Some(i) ==> spec_find_dot(s@) == Some(i as int) && (i as int) < s@.len(),
    decreases s@.len(),
{
    if s.len() == 0 {
        None
    } else if s[0] == DOT {
        Some(0)
    } else {
        let inner = sub_vec(s, 1, s.len());
        match find_dot(&inner) {
            Some(i) => Some(i + 1),
            None => None,
        }
    }
}

/// Executable mirror of `spec_split3`.
pub fn split3(t: &Vec<u8>) -> (r: Option<(Vec<u8>, Vec<u8>, Vec<u8>)>)
    ensures
        r is Some <==> spec_split3(t@) is Some,
        r matches Some(parts) ==> spec_split3(t@) == Some((parts.0@, parts.1@, parts.2@)),
{
    let found_i = find_dot(t);
    if found_i.is_none() {
        return None;
    }
    let i = found_i.unwrap();
    let n = t.len();
    proof {
        lemma_find_dot_sound(t@);
        assert((i as int) < t@.len());
    }
    let rest = sub_vec(t, i + 1, n);
    let found_j = find_dot(&rest);
    if found_j.is_none() {
        return None;
    }
    let j = found_j.unwrap();
    let m = rest.len();
    proof {
        lemma_find_dot_sound(rest@);
        assert((j as int) < rest@.len());
    }
    let h = sub_vec(t, 0, i);
    let p = sub_vec(&rest, 0, j);
    let sig = sub_vec(&rest, j + 1, m);
    proof {
        assert(rest@.subrange(0, j as int) =~= t@.subrange(i + 1, i + 1 + j));
        assert(rest@.subrange(j + 1, rest@.len() as int) =~= t@.subrange(
            i + 2 + j,
            t@.len() as int,
        ));
    }
    Some((h, p, sig))
}

// ---------------------------------------------------------------------------
// Issue and validate.
// ---------------------------------------------------------------------------

/// Issues the token for `data` at time `now`: the claims carry `iat = now`
/// and `exp = now + 24h`, and the whole structure is signed under `secret`.
pub fn issue_token(data: &Vec<u8>, now: u64, secret: &Vec<u8>) -> (r: Vec<u8>)
    requires
        now + VALIDITY_SECONDS <= u64::MAX,
    ensures
        r@ == spec_token(data@, now, (now + VALIDITY_SECONDS) as u64, secret@),
        forall|j: int| 0 <= j < r@.len() ==> #[trigger] r@[j] < 128,
{
    let exp = now + VALIDITY_SECONDS;
    let header = header_json_vec();
    let h64 = b64url_encode(&header);
    let cl = ser_claims(data, exp, now);
    let mut p64 = b64url_encode(&cl);
    proof {
        lemma_b64url_alphabet(header@);
        lemma_b64url_alphabet(cl@);
    }
    let mut msg = h64;
    msg.push(DOT);
    msg.append(&mut p64);
    assert(msg@ =~= spec_signing_input(data@, now, exp));
    let mut sig = hs256_sign(&msg, secret);
    let mut token = msg;
    token.push(DOT);
    token.append(&mut sig);
    assert(token@ =~= spec_token(data@, now, exp, secret@));
    assert(forall|j: int| 0 <= j < token@.len() ==> #[trigger] token@[j] < 128);
    token
}

/// Checks that a token is exactly one this codec issues under `secret` and
/// that it has not expired at time `now`; returns its payload and validity
/// window.  Every failure is the single kind `InvalidToken`: a forged, a
/// malformed and an expired token are deliberately indistinguishable.
pub fn validate_token(token: &Vec<u8>, secret: &Vec<u8>, now: u64) -> (r: Result<
    (Vec<u8>, u64, u64),
    BackendError,
>)
    ensures
        r matches Err(e) ==> e == BackendError::InvalidToken,
        r matches Ok(c) ==> token@ == spec_token(c.0@, c.2, c.1, secret@) && c.1 >= now,
        forall|d: Seq<u8>, i: u64, e: u64|
            token@ == #[trigger] spec_token(d, i, e, secret@) && e >= now ==> (r matches Ok(c)
                && c.0@ == d && c.1 == e && c.2 == i),
        forall|d: Seq<u8>, i: u64, e: u64|
            token@ == #[trigger] spec_token(d, i, e, secret@) && e < now ==> r == Err::<
                (Vec<u8>, u64, u64),
                BackendError,
            >(BackendError::InvalidToken),
{
    let ghost tok = token@;
    proof {
        lemma_wellformed_token_splits(secret@);
    }
    let parts = match split3(token) {
        None => {
            return Err(BackendError::InvalidToken);
        },
        Some(parts) => parts,
    };
    let h = parts.0;
    let p = parts.1;
    let sig = parts.2;
    let ghost hv = h@;
    let ghost pv = p@;
    let ghost sigv = sig@;
    proof {
        lemma_split3_sound(tok);
        assert(spec_split3(tok) == Some((hv, pv, sigv)));
    }
    let header = header_json_vec();
    let h64 = b64url_encode(&header);
    if !vec_eq(&h, &h64) {
        proof {
            assert forall|d: Seq<u8>, i: u64, e: u64|
                tok == #[trigger] spec_token(d, i, e, secret@) && e >= now implies false by {
                lemma_token_parts(d, i, e, secret@);
                assert(hv == b64url_of(header_json()));
            }
        }
        return Err(BackendError::InvalidToken);
    }
    assert(hv == b64url_of(header_json()));
    let p2 = sub_vec(&p, 0, p.len());
    assert(p2@ =~= pv);
    let mut msg = h;
    msg.push(DOT);
    let mut p3 = p2;
    msg.append(&mut p3);
    assert(msg@ =~= hv + seq![DOT] + pv);
    if !hs256_verify(&sig, &msg, secret) {
        proof {
            assert forall|d: Seq<u8>, i: u64, e: u64|
                tok == #[trigger] spec_token(d, i, e, secret@) && e >= now implies false by {
                lemma_token_parts(d, i, e, secret@);
                assert(pv == b64url_of(spec_ser_claims(d, e, i)));
                assert(sigv == hs256_of(spec_signing_input(d, i, e), secret@));
                assert(msg@ =~= spec_signing_input(d, i, e));
            }
        }
        return Err(BackendError::InvalidToken);
    }
    assert(sigv == hs256_of(msg@, secret@));
    let cb = match b64url_decode(&p) {
        None => {
            proof {
                assert forall|d: Seq<u8>, i: u64, e: u64|
                    tok == #[trigger] spec_token(d, i, e, secret@) && e >= now implies false by {
                    lemma_token_parts(d, i, e, secret@);
                    assert(pv == b64url_of(spec_ser_claims(d, e, i)));
                }
            }
            return Err(BackendError::InvalidToken);
        },
        Some(cb) => cb,
    };
    assert(pv == b64url_of(cb@));
    let parsed = match parse_claims(&cb) {
        None => {
            proof {
                assert forall|d: Seq<u8>, i: u64, e: u64|
                    tok == #[trigger] spec_token(d, i, e, secret@) && e >= now implies false by {
                    lemma_token_parts(d, i, e, secret@);
                    assert(pv == b64url_of(spec_ser_claims(d, e, i)));
                    crate::base64url::lemma_b64url_injective(cb@, spec_ser_claims(d, e, i));
                    lemma_parse_ser_claims(d, e, i);
                }
            }
            return Err(BackendError::InvalidToken);
        },
        Some(parsed) => parsed,
    };
    let data = parsed.0;
    let exp = parsed.1;
    let iat = parsed.2;
    proof {
        lemma_ser_of_parse_claims(cb@);
        assert(cb@ == spec_ser_claims(data@, exp, iat));
        assert(msg@ =~= spec_signing_input(data@, iat, exp));
        assert(tok =~= hv + seq![DOT] + pv + seq![DOT] + sigv);
        assert(tok =~= spec_token(data@, iat, exp, secret@));
    }
    if exp < now {
        proof {
            assert forall|d: Seq<u8>, i: u64, e: u64|
                tok == #[trigger] spec_token(d, i, e, secret@) && e >= now implies false by {
                lemma_token_parts(d, i, e, secret@);
                assert(pv == b64url_of(spec_ser_claims(d, e, i)));
                crate::base64url::lemma_b64url_injective(cb@, spec_ser_claims(d, e, i));
                lemma_parse_ser_claims(d, e, i);
                assert(spec_parse_claims(cb@) == Some((d, e, i)));
                assert(e == exp);
            }
        }
        return Err(BackendError::InvalidToken);
    }
    proof {
        assert forall|d: Seq<u8>, i: u64, e: u64|
            tok == #[trigger] spec_token(d, i, e, secret@) implies data@ == d && exp == e && iat
            == i by {
            lemma_token_injective(d, i, e, data@, iat, exp, secret@);
        }
    }
    Ok((data, exp, iat))
}

/// A token pins its claims: under one secret, equal tokens carry equal
/// payloads and equal validity windows.
pub proof fn lemma_token_injective(
    d1: Seq<u8>,
    i1: u64,
    e1: u64,
    d2: Seq<u8>,
    i2: u64,
    e2: u64,
    secret: Seq<u8>,
)
    requires
        spec_token(d1, i1, e1, secret) == spec_token(d2, i2, e2, secret),
    ensures
        d1 == d2,
        i1 == i2,
        e1 == e2,
{
    lemma_token_parts(d1, i1, e1, secret);
    lemma_token_parts(d2, i2, e2, secret);
    crate::base64url::lemma_b64url_injective(
        spec_ser_claims(d1, e1, i1),
        spec_ser_claims(d2, e2, i2),
    );
    lemma_parse_ser_claims(d1, e1, i1);
    lemma_parse_ser_claims(d2, e2, i2);
}

/// The parts of a well-formed token are dot-free, so splitting it recovers
/// exactly its header, claims and signature components.
proof fn lemma_token_parts(d: Seq<u8>, i: u64, e: u64, secret: Seq<u8>)
    ensures
        spec_split3(spec_token(d, i, e, secret)) == Some(
            (
                b64url_of(header_json()),
                b64url_of(spec_ser_claims(d, e, i)),
                hs256_of(spec_signing_input(d, i, e), secret),
            ),
        ),
{
    let h64 = b64url_of(header_json());
    let p64 = b64url_of(spec_ser_claims(d, e, i));
    let sig = hs256_of(spec_signing_input(d, i, e), secret);
    lemma_b64url_alphabet(header_json());
    lemma_b64url_alphabet(spec_ser_claims(d, e, i));
    assert(forall|k: int| 0 <= k < h64.len() ==> #[trigger] h64[k] != DOT);
    assert(forall|k: int| 0 <= k < p64.len() ==> #[trigger] p64[k] != DOT);
    lemma_split3_exact(h64, p64, sig);
    assert(spec_token(d, i, e, secret) =~= h64 + seq![DOT] + p64 + seq![DOT] + sig);
}

/// Every well-formed token splits into three parts.
proof fn lemma_wellformed_token_splits(secret: Seq<u8>)
    ensures
        forall|d: Seq<u8>, i: u64, e: u64|
            spec_split3(#[trigger] spec_token(d, i, e, secret)) is Some,
{
    assert forall|d: Seq<u8>, i: u64, e: u64|
        spec_split3(#[trigger] spec_token(d, i, e, secret)) is Some by {
        lemma_token_parts(d, i, e, secret);
    }
}

} // verus!
