//! The unpadded URL-safe base64 encoding used by the compact token format.
//!
//! The encoding itself is specified here as a function on byte sequences;
//! the `base64` crate is trusted only to compute exactly this function (its
//! `URL_SAFE_NO_PAD` engine: the URL-safe alphabet, no padding, and canonical
//! decoding that rejects padding and non-zero trailing bits).

use vstd::prelude::*;

verus! {

/// The URL-safe alphabet: `A`-`Z`, `a`-`z`, `0`-`9`, `-`, `_`.
pub open spec fn is_b64url_byte(b: u8) -> bool {
    (65 <= b <= 90) || (97 <= b <= 122) || (48 <= b <= 57) || b == 45 || b == 95
}

/// The alphabet byte for a 6-bit value.
pub open spec fn b64_char(v: int) -> u8 {
    if v < 26 {
        (65 + v) as u8
    } else if v < 52 {
        (71 + v) as u8
    } else if v < 62 {
        (v - 4) as u8
    } else if v == 62 {
        45
    } else {
        95
    }
}

/// Unpadded URL-safe base64: each 3-byte group becomes 4 alphabet bytes; a
/// trailing group of 1 or 2 bytes becomes 2 or 3 alphabet bytes with zero
/// trailing bits.
pub open spec fn b64url_of(s: Seq<u8>) -> Seq<u8>
    decreases s.len(),
{
    if s.len() == 0 {
        Seq::empty()
    } else if s.len() == 1 {
        seq![b64_char(s[0] as int / 4), b64_char((s[0] as int % 4) * 16)]
    } else if s.len() == 2 {
        seq![
            b64_char(s[0] as int / 4),
            b64_char((s[0] as int % 4) * 16 + s[1] as int / 16),
            b64_char((s[1] as int % 16) * 4),
        ]
    } else {
        seq![
            b64_char(s[0] as int / 4),
            b64_char((s[0] as int % 4) * 16 + s[1] as int / 16),
            b64_char((s[1] as int % 16) * 4 + s[2] as int / 64),
            b64_char(s[2] as int % 64),
        ] + b64url_of(s.subrange(3, s.len() as int))
    }
}

/// Every byte of an encoding is an alphabet byte; in particular none is a
/// dot, and all are ASCII.
pub proof fn lemma_b64url_alphabet(s: Seq<u8>)
    ensures
        forall|j: int|
            0 <= j < b64url_of(s).len() ==> is_b64url_byte(#[trigger] b64url_of(s)[j]),
    decreases s.len(),
{
    if s.len() == 0 {
    } else if s.len() == 1 {
        assert(is_b64url_byte(b64url_of(s)[0]));
        assert(is_b64url_byte(b64url_of(s)[1]));
    } else if s.len() == 2 {
        assert(is_b64url_byte(b64url_of(s)[0]));
        assert(is_b64url_byte(b64url_of(s)[1]));
        assert(is_b64url_byte(b64url_of(s)[2]));
    } else {
        lemma_b64url_alphabet(s.subrange(3, s.len() as int));
        let out = b64url_of(s);
        let rest = b64url_of(s.subrange(3, s.len() as int));
        assert(is_b64url_byte(out[0]));
        assert(is_b64url_byte(out[1]));
        assert(is_b64url_byte(out[2]));
        assert(is_b64url_byte(out[3]));
        assert(forall|j: int| 4 <= j < out.len() ==> out[j] == rest[j - 4]);
    }
}

/// The length of an encoding: 4 bytes per full group, then 0, 2 or 3.
pub open spec fn b64url_len(n: int) -> int {
    (n / 3) * 4 + if n % 3 == 0 {
        0int
    } else if n % 3 == 1 {
        2int
    } else {
        3int
    }
}

pub proof fn lemma_b64url_len(s: Seq<u8>)
    ensures
        b64url_of(s).len() == b64url_len(s.len() as int),
    decreases s.len(),
{
    let n = s.len() as int;
    if s.len() == 0 {
    } else if s.len() == 1 {
        assert(n / 3 == 0 && n % 3 == 1) by {
            vstd::arithmetic::div_mod::lemma_fundamental_div_mod_converse(n, 3, 0, 1);
        }
    } else if s.len() == 2 {
        assert(n / 3 == 0 && n % 3 == 2) by {
            vstd::arithmetic::div_mod::lemma_fundamental_div_mod_converse(n, 3, 0, 2);
        }
    } else {
        let t = s.subrange(3, n);
        lemma_b64url_len(t);
        let m = t.len() as int;
        assert(n == m + 3);
        assert(n / 3 == m / 3 + 1 && n % 3 == m % 3) by {
            vstd::arithmetic::div_mod::lemma_fundamental_div_mod(m, 3);
            vstd::arithmetic::div_mod::lemma_fundamental_div_mod_converse(
                n,
                3,
                m / 3 + 1,
                m % 3,
            );
        }
    }
}

/// The alphabet map is injective on 6-bit values.
proof fn lemma_b64_char_inj(v: int, w: int)
    requires
        0 <= v < 64,
        0 <= w < 64,
        b64_char(v) == b64_char(w),
    ensures
        v == w,
{
}

/// The encoding is injective: equal encodings come from equal inputs.
pub proof fn lemma_b64url_injective(a: Seq<u8>, b: Seq<u8>)
    requires
        b64url_of(a) == b64url_of(b),
    ensures
        a == b,
    decreases a.len(),
{
    lemma_b64url_len(a);
    lemma_b64url_len(b);
    let na = a.len() as int;
    let nb = b.len() as int;
    assert(na == nb) by {
        vstd::arithmetic::div_mod::lemma_fundamental_div_mod(na, 3);
        vstd::arithmetic::div_mod::lemma_fundamental_div_mod(nb, 3);
    }
    if a.len() == 0 {
        assert(a =~= b);
    } else if a.len() == 1 {
        assert(b64url_of(a)[0] == b64url_of(b)[0]);
        assert(b64url_of(a)[1] == b64url_of(b)[1]);
        lemma_b64_char_inj(a[0] as int / 4, b[0] as int / 4);
        lemma_b64_char_inj((a[0] as int % 4) * 16, (b[0] as int % 4) * 16);
        assert(a[0] == b[0]);
        assert(a =~= b);
    } else if a.len() == 2 {
        assert(b64url_of(a)[0] == b64url_of(b)[0]);
        assert(b64url_of(a)[1] == b64url_of(b)[1]);
        assert(b64url_of(a)[2] == b64url_of(b)[2]);
        lemma_b64_char_inj(a[0] as int / 4, b[0] as int / 4);
        lemma_b64_char_inj(
            (a[0] as int % 4) * 16 + a[1] as int / 16,
            (b[0] as int % 4) * 16 + b[1] as int / 16,
        );
        lemma_b64_char_inj((a[1] as int % 16) * 4, (b[1] as int % 16) * 4);
        assert(a[0] == b[0]);
        assert(a[1] == b[1]);
        assert(a =~= b);
    } else {
        let ra = b64url_of(a.subrange(3, na));
        let rb = b64url_of(b.subrange(3, nb));
        assert(b64url_of(a)[0] == b64_char(a[0] as int / 4));
        assert(b64url_of(a)[1] == b64_char((a[0] as int % 4) * 16 + a[1] as int / 16));
        assert(b64url_of(a)[2] == b64_char((a[1] as int % 16) * 4 + a[2] as int / 64));
        assert(b64url_of(a)[3] == b64_char(a[2] as int % 64));
        assert(b64url_of(b)[0] == b64_char(b[0] as int / 4));
        assert(b64url_of(b)[1] == b64_char((b[0] as int % 4) * 16 + b[1] as int / 16));
        assert(b64url_of(b)[2] == b64_char((b[1] as int % 16) * 4 + b[2] as int / 64));
        assert(b64url_of(b)[3] == b64_char(b[2] as int % 64));
        assert(0 <= (a[0] as int % 4) * 16 + a[1] as int / 16 < 64);
        assert(0 <= (b[0] as int % 4) * 16 + b[1] as int / 16 < 64);
        assert(0 <= (a[1] as int % 16) * 4 + a[2] as int / 64 < 64);
        assert(0 <= (b[1] as int % 16) * 4 + b[2] as int / 64 < 64);
        lemma_b64_char_inj(a[0] as int / 4, b[0] as int / 4);
        lemma_b64_char_inj(
            (a[0] as int % 4) * 16 + a[1] as int / 16,
            (b[0] as int % 4) * 16 + b[1] as int / 16,
        );
        lemma_b64_char_inj(
            (a[1] as int % 16) * 4 + a[2] as int / 64,
            (b[1] as int % 16) * 4 + b[2] as int / 64,
        );
        lemma_b64_char_inj(a[2] as int % 64, b[2] as int % 64);
        assert(a[0] == b[0]);
        assert(a[1] == b[1]);
        assert(a[2] == b[2]);
        assert(ra =~= b64url_of(a).subrange(4, b64url_of(a).len() as int));
        assert(rb =~= b64url_of(b).subrange(4, b64url_of(b).len() as int));
        lemma_b64url_injective(a.subrange(3, na), b.subrange(3, nb));
        assert(a =~= seq![a[0], a[1], a[2]] + a.subrange(3, na));
        assert(b =~= seq![b[0], b[1], b[2]] + b.subrange(3, nb));
    }
}

/// Relies on `base64::engine::general_purpose::URL_SAFE_NO_PAD.encode`: the
/// unpadded URL-safe base64 encoding of the input bytes.
#[verifier::external_body]
pub fn b64url_encode(data: &Vec<u8>) -> (r: Vec<u8>)
    ensures
        r@ == b64url_of(data@),
{
    base64::Engine::encode(&base64::engine::general_purpose::URL_SAFE_NO_PAD, data).into_bytes()
}

/// Relies on `base64::engine::general_purpose::URL_SAFE_NO_PAD.decode`: it
/// accepts exactly the canonical unpadded encodings (no padding characters,
/// no non-zero trailing bits) and inverts the encoding on them.
#[verifier::external_body]
pub fn b64url_decode(data: &Vec<u8>) -> (r: Option<Vec<u8>>)
    ensures
        r matches Some(b) ==> data@ == b64url_of(b@),
        r is None ==> forall|b: Seq<u8>| data@ != b64url_of(b),
{
    base64::Engine::decode(&base64::engine::general_purpose::URL_SAFE_NO_PAD, data).ok()
}

} // verus!
