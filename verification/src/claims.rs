//! The claims payload format: a canonical JSON object
//! `{"data":"...","exp":N,"iat":N}` over bytes, with a writer, a strict
//! reader, and proofs that the two are exact inverses.  The `data` field is
//! opaque to this layer; the codec never interprets it.

use vstd::prelude::*;

use crate::textform::{
    dec_val_u64, escape, lemma_dec_of_props, lemma_dec_of_val, lemma_scan_escape,
    lemma_escape_of_scan, lemma_split_digits_exact, lemma_split_digits_props, lemma_dec_val_nonneg,
    scan_string, spec_all_digits, spec_dec_of, spec_dec_val, spec_escape, spec_is_digit,
    spec_scan_string, spec_split_digits, split_digits_at, sub_vec, QUOTE,
};

verus! {

pub const RBRACE: u8 = 125;

/// The bytes of `{"data":"`.
pub open spec fn lit_claims_open() -> Seq<u8> {
    seq![123u8, 34, 100, 97, 116, 97, 34, 58, 34]
}

/// The bytes of `,"exp":`.
pub open spec fn lit_exp_sep() -> Seq<u8> {
    seq![44u8, 34, 101, 120, 112, 34, 58]
}

/// The bytes of `,"iat":`.
pub open spec fn lit_iat_sep() -> Seq<u8> {
    seq![44u8, 34, 105, 97, 116, 34, 58]
}

pub fn lit_claims_open_vec() -> (r: Vec<u8>)
    ensures
        r@ == lit_claims_open(),
{
    let mut v: Vec<u8> = Vec::new();
    v.push(123);
    v.push(34);
    v.push(100);
    v.push(97);
    v.push(116);
    v.push(97);
    v.push(34);
    v.push(58);
    v.push(34);
    assert(v@ =~= lit_claims_open());
    v
}

pub fn lit_exp_sep_vec() -> (r: Vec<u8>)
    ensures
        r@ == lit_exp_sep(),
{
    let mut v: Vec<u8> = Vec::new();
    v.push(44);
    v.push(34);
    v.push(101);
    v.push(120);
    v.push(112);
    v.push(34);
    v.push(58);
    assert(v@ =~= lit_exp_sep());
    v
}

pub fn lit_iat_sep_vec() -> (r: Vec<u8>)
    ensures
        r@ == lit_iat_sep(),
{
    let mut v: Vec<u8> = Vec::new();
    v.push(44);
    v.push(34);
    v.push(105);
    v.push(97);
    v.push(116);
    v.push(34);
    v.push(58);
    assert(v@ =~= lit_iat_sep());
    v
}

/// The canonical claims object for a given payload and validity window.
pub open spec fn spec_ser_claims(data: Seq<u8>, exp: u64, iat: u64) -> Seq<u8> {
    lit_claims_open() + spec_escape(data) + seq![QUOTE] + lit_exp_sep() + spec_dec_of(exp as nat)
        + lit_iat_sep() + spec_dec_of(iat as nat) + seq![RBRACE]
}

/// Writes the canonical claims object.
pub fn ser_claims(data: &Vec<u8>, exp: u64, iat: u64) -> (r: Vec<u8>)
    ensures
        r@ == spec_ser_claims(data@, exp, iat),
{
    let mut out = lit_claims_open_vec();
    let mut esc = escape(data);
    out.append(&mut esc);
    out.push(QUOTE);
    let mut sep1 = lit_exp_sep_vec();
    out.append(&mut sep1);
    let mut e = crate::textform::dec_of_u64(exp);
    out.append(&mut e);
    let mut sep2 = lit_iat_sep_vec();
    out.append(&mut sep2);
    let mut i = crate::textform::dec_of_u64(iat);
    out.append(&mut i);
    out.push(RBRACE);
    assert(out@ =~= spec_ser_claims(data@, exp, iat));
    out
}

/// Reads a claims object.  Only the canonical form that `spec_ser_claims`
/// produces is accepted: fixed field order, no whitespace, no sign and no
/// leading zero in the numerals.
pub open spec fn spec_parse_claims(s: Seq<u8>) -> Option<(Seq<u8>, u64, u64)> {
    if s.len() < 9 || s.subrange(0, 9) != lit_claims_open() {
        None
    } else {
        match spec_scan_string(s.subrange(9, s.len() as int)) {
            None => None,
            Some(br) => {
                let data = br.0;
                let r1 = br.1;
                if r1.len() < 7 || r1.subrange(0, 7) != lit_exp_sep() {
                    None
                } else {
                    let p1 = spec_split_digits(r1.subrange(7, r1.len() as int));
                    let eds = p1.0;
                    let r3 = p1.1;
                    if eds.len() == 0 || (eds.len() > 1 && eds[0] == 48) || spec_dec_val(eds)
                        > u64::MAX {
                        None
                    } else if r3.len() < 7 || r3.subrange(0, 7) != lit_iat_sep() {
                        None
                    } else {
                        let p2 = spec_split_digits(r3.subrange(7, r3.len() as int));
                        let ids = p2.0;
                        let r5 = p2.1;
                        if ids.len() == 0 || (ids.len() > 1 && ids[0] == 48) || spec_dec_val(ids)
                            > u64::MAX {
                            None
                        } else if r5 =~= seq![RBRACE] {
                            Some(
                                (
                                    data,
                                    spec_dec_val(eds) as u64,
                                    spec_dec_val(ids) as u64,
                                ),
                            )
                        } else {
                            None
                        }
                    }
                }
            },
        }
    }
}

/// Reading back what the writer produced succeeds and returns the inputs.
pub proof fn lemma_parse_ser_claims(data: Seq<u8>, exp: u64, iat: u64)
    ensures
        spec_parse_claims(spec_ser_claims(data, exp, iat)) == Some((data, exp, iat)),
{
    let s = spec_ser_claims(data, exp, iat);
    let rest1 = lit_exp_sep() + spec_dec_of(exp as nat) + lit_iat_sep() + spec_dec_of(iat as nat)
        + seq![RBRACE];
    lemma_dec_of_props(exp as nat);
    lemma_dec_of_props(iat as nat);
    assert(s.len() >= 9);
    assert(s.subrange(0, 9) =~= lit_claims_open());
    assert(s.subrange(9, s.len() as int) =~= spec_escape(data) + seq![QUOTE] + rest1);
    lemma_scan_escape(data, rest1);
    assert(rest1.subrange(0, 7) =~= lit_exp_sep());
    let r2 = rest1.subrange(7, rest1.len() as int);
    let rest3 = lit_iat_sep() + spec_dec_of(iat as nat) + seq![RBRACE];
    assert(r2 =~= spec_dec_of(exp as nat) + rest3);
    assert(!spec_is_digit(rest3[0]));
    lemma_split_digits_exact(spec_dec_of(exp as nat), rest3);
    assert(spec_split_digits(r2) == (spec_dec_of(exp as nat), rest3));
    assert(spec_dec_val(spec_dec_of(exp as nat)) == exp);
    assert(rest3.subrange(0, 7) =~= lit_iat_sep());
    let r4 = rest3.subrange(7, rest3.len() as int);
    assert(r4 =~= spec_dec_of(iat as nat) + seq![RBRACE]);
    assert(!spec_is_digit(seq![RBRACE][0]));
    lemma_split_digits_exact(spec_dec_of(iat as nat), seq![RBRACE]);
    assert(spec_dec_val(spec_dec_of(iat as nat)) == iat);
}

/// Only what the writer produces is accepted: success pins the input bytes.
pub proof fn lemma_ser_of_parse_claims(s: Seq<u8>)
    requires
        spec_parse_claims(s) is Some,
    ensures
        s == spec_ser_claims(
            spec_parse_claims(s)->Some_0.0,
            spec_parse_claims(s)->Some_0.1,
            spec_parse_claims(s)->Some_0.2,
        ),
{
    let t = spec_parse_claims(s)->Some_0;
    let data = t.0;
    let exp = t.1;
    let iat = t.2;
    let s9 = s.subrange(9, s.len() as int);
    let br = spec_scan_string(s9)->Some_0;
    lemma_escape_of_scan(s9);
    let r1 = br.1;
    let r2 = r1.subrange(7, r1.len() as int);
    let p1 = spec_split_digits(r2);
    let eds = p1.0;
    let r3 = p1.1;
    lemma_split_digits_props(r2);
    lemma_dec_val_nonneg(eds);
    lemma_dec_of_val(eds);
    assert(eds == spec_dec_of(exp as nat));
    let r4 = r3.subrange(7, r3.len() as int);
    let p2 = spec_split_digits(r4);
    let ids = p2.0;
    let r5 = p2.1;
    lemma_split_digits_props(r4);
    lemma_dec_val_nonneg(ids);
    lemma_dec_of_val(ids);
    assert(ids == spec_dec_of(iat as nat));
    assert(r5 =~= seq![RBRACE]);
    assert(r4 =~= ids + r5);
    assert(r3 =~= r3.subrange(0, 7) + r4);
    assert(r2 =~= eds + r3);
    assert(r1 =~= r1.subrange(0, 7) + r2);
    assert(s9 =~= spec_escape(data) + seq![QUOTE] + r1);
    assert(s =~= s.subrange(0, 9) + s9);
    assert(s =~= spec_ser_claims(data, exp, iat));
}

/// Executable mirror of `spec_parse_claims`.
pub fn parse_claims(s: &Vec<u8>) -> (r: Option<(Vec<u8>, u64, u64)>)
    ensures
        r is Some <==> spec_parse_claims(s@) is Some,
        r matches Some(t) ==> spec_parse_claims(s@) == Some((t.0@, t.1, t.2)),
{
    if s.len() < 9 {
        return None;
    }
    let open_lit = lit_claims_open_vec();
    let head = sub_vec(s, 0, 9);
    if !vec_eq(&head, &open_lit) {
        return None;
    }
    let body = sub_vec(s, 9, s.len());
    let scanned = scan_string(&body);
    match scanned {
        None => None,
        Some(br) => {
            let data = br.0;
            let r1 = br.1;
            if r1.len() < 7 {
                return None;
            }
            let exp_lit = lit_exp_sep_vec();
            let h1 = sub_vec(&r1, 0, 7);
            if !vec_eq(&h1, &exp_lit) {
                return None;
            }
            let r2 = sub_vec(&r1, 7, r1.len());
            let e_end = split_digits_at(&r2, 0);
            proof {
                assert(r2@.subrange(0, r2@.len() as int) =~= r2@);
                lemma_split_digits_props(r2@);
            }
            let ghost eds = spec_split_digits(r2@).0;
            assert(r2@.subrange(0, e_end as int) == eds);
            if e_end == 0 || (e_end > 1 && r2[0] == 48) {
                return None;
            }
            let exp_v = match dec_val_u64(&r2, 0, e_end) {
                None => {
                    return None;
                },
                Some(v) => v,
            };
            let r3 = sub_vec(&r2, e_end, r2.len());
            assert(r3@ == spec_split_digits(r2@).1);
            if r3.len() < 7 {
                return None;
            }
            let iat_lit = lit_iat_sep_vec();
            let h2 = sub_vec(&r3, 0, 7);
            if !vec_eq(&h2, &iat_lit) {
                return None;
            }
            let r4 = sub_vec(&r3, 7, r3.len());
            let i_end = split_digits_at(&r4, 0);
            proof {
                assert(r4@.subrange(0, r4@.len() as int) =~= r4@);
                lemma_split_digits_props(r4@);
            }
            let ghost ids = spec_split_digits(r4@).0;
            assert(r4@.subrange(0, i_end as int) == ids);
            if i_end == 0 || (i_end > 1 && r4[0] == 48) {
                return None;
            }
            let iat_v = match dec_val_u64(&r4, 0, i_end) {
                None => {
                    return None;
                },
                Some(v) => v,
            };
            let r5 = sub_vec(&r4, i_end, r4.len());
            assert(r5@ == spec_split_digits(r4@).1);
            if !(r5.len() == 1 && r5[0] == RBRACE) {
                return None;
            }
            assert(r5@ =~= seq![RBRACE]);
            Some((data, exp_v, iat_v))
        },
    }
}

/// Byte-for-byte equality of two vectors.
pub fn vec_eq(a: &Vec<u8>, b: &Vec<u8>) -> (r: bool)
    ensures
        r == (a@ == b@),
{
    if a.len() != b.len() {
        assert(a@ != b@);
        return false;
    }
    let mut i: usize = 0;
    while i < a.len()
        invariant
            i <= a@.len(),
            a@.len() == b@.len(),
            a@.subrange(0, i as int) == b@.subrange(0, i as int),
        decreases a@.len() - i,
    {
        if a[i] != b[i] {
            return false;
        }
        assert(a@.subrange(0, i + 1 as int) =~= a@.subrange(0, i as int).push(a@[i as int]));
        assert(b@.subrange(0, i + 1 as int) =~= b@.subrange(0, i as int).push(b@[i as int]));
        i += 1;
    }
    proof {
        assert(a@.subrange(0, a@.len() as int) =~= a@);
        assert(b@.subrange(0, b@.len() as int) =~= b@);
    }
    true
}

} // verus!
