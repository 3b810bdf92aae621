//! Byte-level text forms used by the claims codec: JSON string escaping and
//! decimal numerals.  Each form has a specification, an executable mirror of
//! it, and lemmas showing that writing and reading are exact inverses.

use vstd::prelude::*;

verus! {

pub const QUOTE: u8 = 34;
pub const BACKSLASH: u8 = 92;

// ---------------------------------------------------------------------------
// JSON string escaping: a quote or a backslash is preceded by a backslash,
// every other byte passes through unchanged.
// ---------------------------------------------------------------------------

pub open spec fn spec_escape_byte(b: u8) -> Seq<u8> {
    if b == QUOTE || b == BACKSLASH {
        seq![BACKSLASH, b]
    } else {
        seq![b]
    }
}

pub open spec fn spec_escape(s: Seq<u8>) -> Seq<u8>
    decreases s.len(),
{
    if s.len() == 0 {
        Seq::empty()
    } else {
        spec_escape_byte(s[0]) + spec_escape(s.subrange(1, s.len() as int))
    }
}

pub proof fn lemma_escape_append(a: Seq<u8>, b: Seq<u8>)
    ensures
        spec_escape(a + b) == spec_escape(a) + spec_escape(b),
    decreases a.len(),
{
    if a.len() == 0 {
        assert(a + b =~= b);
        assert(spec_escape(a) + spec_escape(b) =~= spec_escape(b));
    } else {
        let a1 = a.subrange(1, a.len() as int);
        assert((a + b).subrange(1, (a + b).len() as int) =~= a1 + b);
        lemma_escape_append(a1, b);
        assert(spec_escape(a + b) =~= spec_escape_byte(a[0]) + (spec_escape(a1) + spec_escape(b)));
        assert(spec_escape_byte(a[0]) + (spec_escape(a1) + spec_escape(b)) =~= (spec_escape_byte(
            a[0],
        ) + spec_escape(a1)) + spec_escape(b));
    }
}

/// Reading a quoted string body: the bytes up to the first unescaped quote,
/// and the remainder after that quote.  Only the two escapes the writer emits
/// are accepted.
pub open spec fn spec_scan_string(s: Seq<u8>) -> Option<(Seq<u8>, Seq<u8>)>
    decreases s.len(),
{
    if s.len() == 0 {
        None
    } else if s[0] == QUOTE {
        Some((Seq::empty(), s.subrange(1, s.len() as int)))
    } else if s[0] == BACKSLASH {
        if s.len() < 2 || (s[1] != QUOTE && s[1] != BACKSLASH) {
            None
        } else {
            match spec_scan_string(s.subrange(2, s.len() as int)) {
                Some(br) => Some((seq![s[1]] + br.0, br.1)),
                None => None,
            }
        }
    } else {
        match spec_scan_string(s.subrange(1, s.len() as int)) {
            Some(br) => Some((seq![s[0]] + br.0, br.1)),
            None => None,
        }
    }
}

/// Completeness: scanning what the writer produced yields the body it was given
/// and the untouched remainder.
pub proof fn lemma_scan_escape(body: Seq<u8>, rest: Seq<u8>)
    ensures
        spec_scan_string(spec_escape(body) + seq![QUOTE] + rest) == Some((body, rest)),
    decreases body.len(),
{
    let s = spec_escape(body) + seq![QUOTE] + rest;
    if body.len() == 0 {
        assert(s =~= seq![QUOTE] + rest);
        assert(s[0] == QUOTE);
        assert(s.subrange(1, s.len() as int) =~= rest);
        assert(Some((Seq::<u8>::empty(), s.subrange(1, s.len() as int))) == spec_scan_string(s));
        assert(Seq::<u8>::empty() =~= body);
    } else {
        let b0 = body[0];
        let tail = body.subrange(1, body.len() as int);
        lemma_scan_escape(tail, rest);
        assert(spec_escape(body) =~= spec_escape_byte(b0) + spec_escape(tail));
        if b0 == QUOTE || b0 == BACKSLASH {
            assert(s =~= seq![BACKSLASH, b0] + (spec_escape(tail) + seq![QUOTE] + rest));
            assert(s[0] == BACKSLASH);
            assert(s[1] == b0);
            assert(s.subrange(2, s.len() as int) =~= spec_escape(tail) + seq![QUOTE] + rest);
            assert(seq![b0] + tail =~= body);
        } else {
            assert(s =~= seq![b0] + (spec_escape(tail) + seq![QUOTE] + rest));
            assert(s[0] == b0);
            assert(s.subrange(1, s.len() as int) =~= spec_escape(tail) + seq![QUOTE] + rest);
            assert(seq![b0] + tail =~= body);
        }
    }
}

/// Soundness: whatever the scanner accepts is exactly what the writer would
/// have produced for the body it returns.
pub proof fn lemma_escape_of_scan(s: Seq<u8>)
    requires
        spec_scan_string(s) is Some,
    ensures
        s == spec_escape(spec_scan_string(s)->Some_0.0) + seq![QUOTE] + spec_scan_string(
            s,
        )->Some_0.1,
    decreases s.len(),
{
    let br = spec_scan_string(s)->Some_0;
    if s[0] == QUOTE {
        assert(spec_escape(br.0) =~= Seq::empty());
        assert(spec_escape(br.0) + seq![QUOTE] + br.1 =~= s);
    } else if s[0] == BACKSLASH {
        let s2 = s.subrange(2, s.len() as int);
        lemma_escape_of_scan(s2);
        let br2 = spec_scan_string(s2)->Some_0;
        assert(br.0 == seq![s[1]] + br2.0 && br.1 == br2.1);
        assert(s2 == spec_escape(br2.0) + seq![QUOTE] + br2.1);
        assert(spec_escape(br.0) =~= spec_escape_byte(s[1]) + spec_escape(
            (seq![s[1]] + br2.0).subrange(1, (seq![s[1]] + br2.0).len() as int),
        ));
        assert((seq![s[1]] + br2.0).subrange(1, (seq![s[1]] + br2.0).len() as int) =~= br2.0);
        assert(spec_escape_byte(s[1]) =~= seq![BACKSLASH, s[1]]);
        assert(s =~= seq![BACKSLASH, s[1]] + s2);
        assert(spec_escape(br.0) + seq![QUOTE] + br.1 =~= (seq![BACKSLASH, s[1]] + spec_escape(
            br2.0,
        )) + seq![QUOTE] + br2.1);
        assert((seq![BACKSLASH, s[1]] + spec_escape(br2.0)) + seq![QUOTE] + br2.1 =~= seq![
            BACKSLASH,
            s[1],
        ] + (spec_escape(br2.0) + seq![QUOTE] + br2.1));
        assert(spec_escape(br.0) + seq![QUOTE] + br.1 =~= s);
    } else {
        let s1 = s.subrange(1, s.len() as int);
        lemma_escape_of_scan(s1);
        let br1 = spec_scan_string(s1)->Some_0;
        assert(br.0 == seq![s[0]] + br1.0 && br.1 == br1.1);
        assert(s1 == spec_escape(br1.0) + seq![QUOTE] + br1.1);
        assert((seq![s[0]] + br1.0).subrange(1, (seq![s[0]] + br1.0).len() as int) =~= br1.0);
        assert(spec_escape(br.0) =~= seq![s[0]] + spec_escape(br1.0));
        assert(s =~= seq![s[0]] + s1);
        assert(spec_escape(br.0) + seq![QUOTE] + br.1 =~= (seq![s[0]] + spec_escape(br1.0))
            + seq![QUOTE] + br1.1);
        assert((seq![s[0]] + spec_escape(br1.0)) + seq![QUOTE] + br1.1 =~= seq![s[0]] + (
        spec_escape(br1.0) + seq![QUOTE] + br1.1));
        assert(spec_escape(br.0) + seq![QUOTE] + br.1 =~= s);
    }
}

// ---------------------------------------------------------------------------
// Executable mirrors.
// ---------------------------------------------------------------------------

/// A copy of `s[from..to]`.
pub fn sub_vec(s: &Vec<u8>, from: usize, to: usize) -> (r: Vec<u8>)
    requires
        from <= to <= s@.len(),
    ensures
        r@ == s@.subrange(from as int, to as int),
{
    let mut out: Vec<u8> = Vec::new();
    let mut i: usize = from;
    while i < to
        invariant
            from <= i <= to <= s@.len(),
            out@ == s@.subrange(from as int, i as int),
        decreases to - i,
    {
        out.push(s[i]);
        assert(s@.subrange(from as int, i + 1 as int) =~= s@.subrange(from as int, i as int).push(
            s@[i as int],
        ));
        i += 1;
    }
    out
}

pub fn escape(s: &Vec<u8>) -> (r: Vec<u8>)
    ensures
        r@ == spec_escape(s@),
{
    let mut out: Vec<u8> = Vec::new();
    let mut i: usize = 0;
    while i < s.len()
        invariant
            i <= s@.len(),
            out@ == spec_escape(s@.subrange(0, i as int)),
        decreases s@.len() - i,
    {
        let b = s[i];
        if b == QUOTE || b == BACKSLASH {
            out.push(BACKSLASH);
            out.push(b);
        } else {
            out.push(b);
        }
        proof {
            let pre = s@.subrange(0, i as int);
            lemma_escape_append(pre, seq![b]);
            assert(s@.subrange(0, i + 1 as int) =~= pre + seq![b]);
            assert(spec_escape(seq![b]) =~= spec_escape_byte(b) + spec_escape(
                seq![b].subrange(1, 1),
            ));
            assert(spec_escape(seq![b].subrange(1, 1)) =~= Seq::<u8>::empty());
            assert(out@ =~= spec_escape(pre) + spec_escape_byte(b));
        }
        i += 1;
    }
    assert(s@.subrange(0, s@.len() as int) =~= s@);
    out
}

/// Executable mirror of `spec_scan_string`.
pub fn scan_string(s: &Vec<u8>) -> (r: Option<(Vec<u8>, Vec<u8>)>)
    ensures
        r is Some <==> spec_scan_string(s@) is Some,
        r matches Some(br) ==> spec_scan_string(s@) == Some((br.0@, br.1@)),
    decreases s@.len(),
{
    if s.len() == 0 {
        None
    } else if s[0] == QUOTE {
        let rest = sub_vec(s, 1, s.len());
        Some((Vec::new(), rest))
    } else if s[0] == BACKSLASH {
        if s.len() < 2 || (s[1] != QUOTE && s[1] != BACKSLASH) {
            None
        } else {
            let inner = sub_vec(s, 2, s.len());
            match scan_string(&inner) {
                Some(br) => {
                    let mut body: Vec<u8> = Vec::new();
                    body.push(s[1]);
                    let mut tail = br.0;
                    let ghost tail0 = tail@;
                    body.append(&mut tail);
                    assert(body@ =~= seq![s@[1]] + tail0);
                    Some((body, br.1))
                },
                None => None,
            }
        }
    } else {
        let inner = sub_vec(s, 1, s.len());
        match scan_string(&inner) {
            Some(br) => {
                let mut body: Vec<u8> = Vec::new();
                body.push(s[0]);
                let mut tail = br.0;
                let ghost tail0 = tail@;
                body.append(&mut tail);
                assert(body@ =~= seq![s@[0]] + tail0);
                Some((body, br.1))
            },
            None => None,
        }
    }
}

// ---------------------------------------------------------------------------
// Decimal numerals.
// ---------------------------------------------------------------------------

pub open spec fn spec_is_digit(b: u8) -> bool {
    48 <= b <= 57
}

pub open spec fn spec_all_digits(s: Seq<u8>) -> bool {
    forall|k: int| 0 <= k < s.len() ==> spec_is_digit(#[trigger] s[k])
}

/// The canonical decimal numeral of `n`: no sign, no leading zero.
pub open spec fn spec_dec_of(n: nat) -> Seq<u8>
    decreases n,
{
    if n < 10 {
        seq![(48 + n) as u8]
    } else {
        spec_dec_of(n / 10) + seq![(48 + n % 10) as u8]
    }
}

/// The value of a digit string, most significant digit first.
pub open spec fn spec_dec_val(s: Seq<u8>) -> int
    decreases s.len(),
{
    if s.len() == 0 {
        0
    } else {
        spec_dec_val(s.drop_last()) * 10 + (s.last() - 48)
    }
}

pub proof fn lemma_dec_val_nonneg(s: Seq<u8>)
    requires
        spec_all_digits(s),
    ensures
        spec_dec_val(s) >= 0,
    decreases s.len(),
{
    if s.len() > 0 {
        assert(spec_all_digits(s.drop_last()));
        lemma_dec_val_nonneg(s.drop_last());
    }
}

/// The numeral of `n` is all digits, starts with a nonzero digit unless it is
/// `"0"`, and evaluates back to `n`.
pub proof fn lemma_dec_of_props(n: nat)
    ensures
        spec_dec_of(n).len() >= 1,
        spec_all_digits(spec_dec_of(n)),
        spec_dec_val(spec_dec_of(n)) == n,
        n > 0 ==> spec_dec_of(n)[0] != 48,
        n == 0 ==> spec_dec_of(n) == seq![48u8],
    decreases n,
{
    if n < 10 {
        let s = spec_dec_of(n);
        assert(s =~= seq![(48 + n) as u8]);
        assert(s.drop_last() =~= Seq::<u8>::empty());
        assert(spec_dec_val(s.drop_last()) == 0);
        assert(s.last() == (48 + n) as u8);
        assert(spec_dec_val(s) == s.last() - 48);
        if n == 0 {
            assert(spec_dec_of(n) =~= seq![48u8]);
        }
    } else {
        lemma_dec_of_props(n / 10);
        let hi = spec_dec_of(n / 10);
        let s = spec_dec_of(n);
        assert(s =~= hi + seq![(48 + n % 10) as u8]);
        assert(s.drop_last() =~= hi);
        assert(s.last() == (48 + n % 10) as u8);
        assert(spec_dec_val(s) == spec_dec_val(hi) * 10 + (n % 10));
        assert((n / 10) * 10 + n % 10 == n) by {
            vstd::arithmetic::div_mod::lemma_fundamental_div_mod(n as int, 10);
        }
        assert(s[0] == hi[0]);
        assert(n / 10 > 0);
    }
}

/// A digit string in canonical form (no leading zero) is the numeral of its
/// own value: numerals are unique.
pub proof fn lemma_dec_of_val(s: Seq<u8>)
    requires
        spec_all_digits(s),
        s.len() >= 1,
        s.len() > 1 ==> s[0] != 48,
    ensures
        spec_dec_val(s) >= 0,
        spec_dec_of(spec_dec_val(s) as nat) == s,
    decreases s.len(),
{
    lemma_dec_val_nonneg(s);
    if s.len() == 1 {
        assert(s.drop_last() =~= Seq::<u8>::empty());
        assert(spec_dec_val(s.drop_last()) == 0);
        assert(s.last() == s[0]);
        assert(spec_dec_val(s) == s[0] - 48);
        assert(spec_dec_of((s[0] - 48) as nat) =~= s);
    } else {
        let hi = s.drop_last();
        assert(spec_all_digits(hi));
        lemma_dec_of_val(hi);
        lemma_dec_val_lower_bound(hi);
        let v = spec_dec_val(s);
        let hv = spec_dec_val(hi);
        assert(v == hv * 10 + (s.last() - 48));
        assert(hv >= 1);
        assert(v >= 10);
        assert(v / 10 == hv && v % 10 == s.last() - 48) by {
            vstd::arithmetic::div_mod::lemma_fundamental_div_mod_converse(
                v,
                10,
                hv,
                s.last() - 48,
            );
        }
        assert(spec_dec_of(v as nat) =~= spec_dec_of(hv as nat) + seq![(48 + v % 10) as u8]);
        assert(spec_dec_of(hv as nat) + seq![(48 + v % 10) as u8] =~= s);
    }
}

/// A digit string that does not start with `'0'` has value at least 1.
pub proof fn lemma_dec_val_lower_bound(s: Seq<u8>)
    requires
        spec_all_digits(s),
        s.len() >= 1,
        s[0] != 48,
    ensures
        spec_dec_val(s) >= 1,
    decreases s.len(),
{
    if s.len() == 1 {
        assert(s.drop_last() =~= Seq::<u8>::empty());
        assert(spec_dec_val(s.drop_last()) == 0);
        assert(s.last() == s[0]);
        assert(spec_dec_val(s) == s[0] - 48);
    } else {
        let hi = s.drop_last();
        assert(spec_all_digits(hi));
        assert(hi[0] == s[0]);
        lemma_dec_val_lower_bound(hi);
        lemma_dec_val_nonneg(s);
        assert(spec_dec_val(s) == spec_dec_val(hi) * 10 + (s.last() - 48));
        assert(spec_dec_val(hi) * 10 >= 10);
    }
}

/// Splitting a byte string at its first non-digit.
pub open spec fn spec_split_digits(s: Seq<u8>) -> (Seq<u8>, Seq<u8>)
    decreases s.len(),
{
    if s.len() == 0 || !spec_is_digit(s[0]) {
        (Seq::empty(), s)
    } else {
        let p = spec_split_digits(s.subrange(1, s.len() as int));
        (seq![s[0]] + p.0, p.1)
    }
}

pub proof fn lemma_split_digits_props(s: Seq<u8>)
    ensures
        spec_all_digits(spec_split_digits(s).0),
        spec_split_digits(s).0 + spec_split_digits(s).1 == s,
        spec_split_digits(s).1.len() > 0 ==> !spec_is_digit(spec_split_digits(s).1[0]),
    decreases s.len(),
{
    if s.len() == 0 || !spec_is_digit(s[0]) {
        assert(spec_split_digits(s).0 + spec_split_digits(s).1 =~= s);
    } else {
        let s1 = s.subrange(1, s.len() as int);
        lemma_split_digits_props(s1);
        let p = spec_split_digits(s1);
        assert((seq![s[0]] + p.0) + p.1 =~= seq![s[0]] + (p.0 + p.1));
        assert(seq![s[0]] + s1 =~= s);
        let q = spec_split_digits(s);
        assert(q.0 =~= seq![s[0]] + p.0);
        assert(spec_all_digits(q.0)) by {
            assert(forall|k: int|
                0 <= k < q.0.len() ==> #[trigger] q.0[k] == if k == 0 {
                    s[0]
                } else {
                    p.0[k - 1]
                });
        }
    }
}

/// Splitting is exact: a digit block followed by a non-digit (or nothing)
/// splits at exactly that point.
pub proof fn lemma_split_digits_exact(ds: Seq<u8>, rest: Seq<u8>)
    requires
        spec_all_digits(ds),
        rest.len() > 0 ==> !spec_is_digit(rest[0]),
    ensures
        spec_split_digits(ds + rest) == (ds, rest),
    decreases ds.len(),
{
    let s = ds + rest;
    if ds.len() == 0 {
        assert(s =~= rest);
        assert(spec_split_digits(s).0 =~= ds);
    } else {
        assert(s[0] == ds[0]);
        assert(spec_is_digit(s[0]));
        let tail = ds.subrange(1, ds.len() as int);
        assert(spec_all_digits(tail));
        lemma_split_digits_exact(tail, rest);
        assert(s.subrange(1, s.len() as int) =~= tail + rest);
        assert(seq![s[0]] + tail =~= ds);
    }
}

/// Executable mirror of `spec_split_digits`, returning the split position.
pub fn split_digits_at(s: &Vec<u8>, from: usize) -> (r: usize)
    requires
        from <= s@.len(),
    ensures
        from <= r <= s@.len(),
        spec_split_digits(s@.subrange(from as int, s@.len() as int)) == (
            s@.subrange(from as int, r as int),
            s@.subrange(r as int, s@.len() as int),
        ),
    decreases s@.len() - from,
{
    if from == s.len() || !(48 <= s[from] && s[from] <= 57) {
        assert(s@.subrange(from as int, from as int) =~= Seq::<u8>::empty());
        from
    } else {
        let r = split_digits_at(s, from + 1);
        proof {
            let suf = s@.subrange(from as int, s@.len() as int);
            let suf1 = s@.subrange(from + 1 as int, s@.len() as int);
            assert(suf[0] == s@[from as int]);
            assert(suf.subrange(1, suf.len() as int) =~= suf1);
            assert(seq![suf[0]] + s@.subrange(from + 1 as int, r as int) =~= s@.subrange(
                from as int,
                r as int,
            ));
        }
        r
    }
}

/// Writes the canonical decimal numeral of `n`.
pub fn dec_of_u64(n: u64) -> (r: Vec<u8>)
    ensures
        r@ == spec_dec_of(n as nat),
    decreases n,
{
    if n < 10 {
        let mut v: Vec<u8> = Vec::new();
        v.push(48 + n as u8);
        assert(v@ =~= spec_dec_of(n as nat));
        v
    } else {
        let mut v = dec_of_u64(n / 10);
        v.push(48 + (n % 10) as u8);
        assert(v@ =~= spec_dec_of((n / 10) as nat) + seq![(48 + (n as nat) % 10) as u8]);
        v
    }
}

/// The value of the digit string `s[from..to]` as a `u64`, or `None` when it
/// exceeds `u64::MAX`.
pub fn dec_val_u64(s: &Vec<u8>, from: usize, to: usize) -> (r: Option<u64>)
    requires
        from <= to <= s@.len(),
        spec_all_digits(s@.subrange(from as int, to as int)),
    ensures
        r is Some <==> spec_dec_val(s@.subrange(from as int, to as int)) <= u64::MAX,
        r matches Some(v) ==> v == spec_dec_val(s@.subrange(from as int, to as int)),
    decreases to - from,
{
    let ghost ds = s@.subrange(from as int, to as int);
    proof {
        lemma_dec_val_nonneg(ds);
    }
    if from == to {
        assert(ds =~= Seq::<u8>::empty());
        Some(0)
    } else {
        proof {
            assert(ds.drop_last() =~= s@.subrange(from as int, to - 1 as int));
            assert(spec_all_digits(ds.drop_last()));
            lemma_dec_val_nonneg(ds.drop_last());
        }
        match dec_val_u64(s, from, to - 1) {
            None => {
                proof {
                    assert(ds.last() == s@[to - 1 as int]);
                    assert(spec_dec_val(ds) == spec_dec_val(ds.drop_last()) * 10 + (ds.last()
                        - 48));
                    assert(spec_dec_val(ds.drop_last()) > u64::MAX ==> spec_dec_val(ds)
                        > u64::MAX) by (nonlinear_arith)
                        requires
                            spec_dec_val(ds) == spec_dec_val(ds.drop_last()) * 10 + (ds.last()
                                - 48),
                            ds.last() >= 48,
                    ;
                }
                None
            },
            Some(acc) => {
                let d = s[to - 1] - 48;
                proof {
                    assert(spec_dec_val(ds) == acc * 10 + d);
                }
                match acc.checked_mul(10) {
                    None => {
                        proof {
                            assert(acc * 10 + d > u64::MAX);
                        }
                        None
                    },
                    Some(m) => {
                        match m.checked_add(d as u64) {
                            None => None,
                            Some(v) => Some(v),
                        }
                    },
                }
            },
        }
    }
}

} // verus!
