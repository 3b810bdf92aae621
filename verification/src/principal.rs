//! The principal payload embedded in the claims' opaque `data` field: a JSON
//! object `{"user_id":"..."}` holding a single string identifier.  The codec
//! itself never reads this form; callers write it at issuance and read it
//! back after validation.

use vstd::prelude::*;

use crate::claims::{vec_eq, RBRACE};
use crate::textform::{
    escape, lemma_escape_of_scan, lemma_scan_escape, scan_string, spec_escape, spec_scan_string,
    sub_vec, QUOTE,
};

verus! {

/// The bytes of `{"user_id":"`.
pub open spec fn lit_user_open() -> Seq<u8> {
    seq![123u8, 34, 117, 115, 101, 114, 95, 105, 100, 34, 58, 34]
}

pub fn lit_user_open_vec() -> (r: Vec<u8>)
    ensures
        r@ == lit_user_open(),
{
    let mut v: Vec<u8> = Vec::new();
    v.push(123);
    v.push(34);
    v.push(117);
    v.push(115);
    v.push(101);
    v.push(114);
    v.push(95);
    v.push(105);
    v.push(100);
    v.push(34);
    v.push(58);
    v.push(34);
    assert(v@ =~= lit_user_open());
    v
}

/// The serialized principal for a given identifier.
pub open spec fn spec_ser_user(uid: Seq<u8>) -> Seq<u8> {
    lit_user_open() + spec_escape(uid) + seq![QUOTE, RBRACE]
}

pub fn ser_user(uid: &Vec<u8>) -> (r: Vec<u8>)
    ensures
        r@ == spec_ser_user(uid@),
{
    let mut out = lit_user_open_vec();
    let mut esc = escape(uid);
    out.append(&mut esc);
    out.push(QUOTE);
    out.push(RBRACE);
    assert(out@ =~= spec_ser_user(uid@));
    out
}

/// Reads a serialized principal; only the canonical form is accepted.
pub open spec fn spec_parse_user(s: Seq<u8>) -> Option<Seq<u8>> {
    if s.len() < 12 || s.subrange(0, 12) != lit_user_open() {
        None
    } else {
        match spec_scan_string(s.subrange(12, s.len() as int)) {
            None => None,
            Some(br) => if br.1 =~= seq![RBRACE] {
                Some(br.0)
            } else {
                None
            },
        }
    }
}

/// Reading back what the writer produced returns the identifier.
pub proof fn lemma_parse_ser_user(uid: Seq<u8>)
    ensures
        spec_parse_user(spec_ser_user(uid)) == Some(uid),
{
    let s = spec_ser_user(uid);
    assert(s.subrange(0, 12) =~= lit_user_open());
    assert(s.subrange(12, s.len() as int) =~= spec_escape(uid) + seq![QUOTE] + seq![RBRACE]);
    lemma_scan_escape(uid, seq![RBRACE]);
}

/// Only what the writer produces is accepted.
pub proof fn lemma_ser_of_parse_user(s: Seq<u8>)
    requires
        spec_parse_user(s) is Some,
    ensures
        s == spec_ser_user(spec_parse_user(s)->Some_0),
{
    let s12 = s.subrange(12, s.len() as int);
    lemma_escape_of_scan(s12);
    let br = spec_scan_string(s12)->Some_0;
    assert(s12 =~= spec_escape(br.0) + seq![QUOTE] + seq![RBRACE]);
    assert(s =~= s.subrange(0, 12) + s12);
    assert(s =~= spec_ser_user(br.0));
}

/// Executable mirror of `spec_parse_user`.
pub fn parse_user(s: &Vec<u8>) -> (r: Option<Vec<u8>>)
    ensures
        r is Some <==> spec_parse_user(s@) is Some,
        r matches Some(uid) ==> spec_parse_user(s@) == Some(uid@),
{
    if s.len() < 12 {
        return None;
    }
    let open_lit = lit_user_open_vec();
    let head = sub_vec(s, 0, 12);
    if !vec_eq(&head, &open_lit) {
        return None;
    }
    let body = sub_vec(s, 12, s.len());
    match scan_string(&body) {
        None => None,
        Some(br) => {
            let rest = br.1;
            if rest.len() == 1 && rest[0] == RBRACE {
                assert(rest@ =~= seq![RBRACE]);
                Some(br.0)
            } else {
                assert(!(rest@ =~= seq![RBRACE]));
                None
            }
        },
    }
}

} // verus!
