//! Recognizer for the texts that read as a 64-bit float: an optional sign,
//! then either one of the keywords `inf`, `infinity`, `nan` (any case) or a
//! decimal number `digits [. digits]` with an optional `e`/`E` exponent.
//! Only tokens accepted here become samples; the numeric value itself is
//! carried as its original bytes and converted outside the core.

use vstd::prelude::*;

verus! {

/// An ASCII decimal digit.
pub open spec fn is_digit(b: u8) -> bool {
    48 <= b <= 57
}

/// Every byte of `s` is a decimal digit.
pub open spec fn all_digits(s: Seq<u8>) -> bool {
    forall|k: int| 0 <= k < s.len() ==> is_digit(s[k])
}

/// ASCII lower-casing of one byte.
pub open spec fn to_lower(b: u8) -> u8 {
    if 65 <= b <= 90 {
        (b + 32) as u8
    } else {
        b
    }
}

/// ASCII lower-casing of a byte string.
pub open spec fn lower_seq(s: Seq<u8>) -> Seq<u8> {
    s.map_values(|b: u8| to_lower(b))
}

/// The bytes of `inf`.
pub open spec fn kw_inf() -> Seq<u8> {
    seq![105u8, 110u8, 102u8]
}

/// The bytes of `infinity`.
pub open spec fn kw_infinity() -> Seq<u8> {
    seq![105u8, 110u8, 102u8, 105u8, 110u8, 105u8, 116u8, 121u8]
}

/// The bytes of `nan`.
pub open spec fn kw_nan() -> Seq<u8> {
    seq![110u8, 97u8, 110u8]
}

/// `s` is one of the special float keywords, compared case-insensitively.
pub open spec fn is_keyword(s: Seq<u8>) -> bool {
    lower_seq(s) == kw_inf() || lower_seq(s) == kw_infinity() || lower_seq(s) == kw_nan()
}

/// How many bytes of `s` equal `b`.
pub open spec fn count_byte(s: Seq<u8>, b: u8) -> int
    decreases s.len(),
{
    if s.len() == 0 {
        0
    } else {
        (if s[0] == b {
            1int
        } else {
            0int
        }) + count_byte(s.skip(1), b)
    }
}

/// How many bytes of `s` are decimal digits.
pub open spec fn digit_count(s: Seq<u8>) -> int
    decreases s.len(),
{
    if s.len() == 0 {
        0
    } else {
        (if is_digit(s[0]) {
            1int
        } else {
            0int
        }) + digit_count(s.skip(1))
    }
}

/// `s` is a mantissa: digits with at most one dot among them, and at
/// least one digit.
pub open spec fn is_mantissa(s: Seq<u8>) -> bool {
    digit_count(s) >= 1 && count_byte(s, 46) <= 1 && (forall|k: int|
        0 <= k < s.len() ==> (is_digit(s[k]) || s[k] == 46))
}

/// `s` is what may follow an exponent marker: an optional sign, then at
/// least one digit and nothing else.
pub open spec fn is_exp_tail(s: Seq<u8>) -> bool {
    if s.len() > 0 && (s[0] == 43 || s[0] == 45) {
        s.len() > 1 && all_digits(s.skip(1))
    } else {
        s.len() > 0 && all_digits(s)
    }
}

/// The index of the first `e` or `E` in `s`, or `s.len()` if there is none.
pub open spec fn first_exp_marker(s: Seq<u8>) -> int
    decreases s.len(),
{
    if s.len() == 0 {
        0
    } else if s[0] == 101 || s[0] == 69 {
        0
    } else {
        1 + first_exp_marker(s.skip(1))
    }
}

proof fn lemma_first_marker_is(s: Seq<u8>, i: int)
    requires
        0 <= i <= s.len(),
        forall|k: int| 0 <= k < i ==> !(s[k] == 101 || s[k] == 69),
        i < s.len() ==> (s[i] == 101 || s[i] == 69),
    ensures
        first_exp_marker(s) == i,
    decreases i,
{
    if i > 0 {
        lemma_first_marker_is(s.skip(1), i - 1);
    }
}

/// `s` is an unsigned number: a mantissa, optionally followed by an
/// exponent marker and a well-formed exponent.
pub open spec fn is_number(s: Seq<u8>) -> bool {
    let fe = first_exp_marker(s);
    if fe == s.len() {
        is_mantissa(s)
    } else {
        is_mantissa(s.take(fe)) && is_exp_tail(s.skip(fe + 1))
    }
}

/// `s` reads as a 64-bit float: an optional sign, then a keyword or an
/// unsigned number.
pub open spec fn is_float_text(s: Seq<u8>) -> bool {
    s.len() > 0 && {
        let body = if s[0] == 43 || s[0] == 45 {
            s.skip(1)
        } else {
            s
        };
        is_keyword(body) || is_number(body)
    }
}

proof fn lemma_count_byte_push(s: Seq<u8>, b: u8, x: u8)
    ensures
        count_byte(s.push(x), b) == count_byte(s, b) + (if x == b {
            1int
        } else {
            0int
        }),
    decreases s.len(),
{
    let t = s.push(x);
    if s.len() == 0 {
        assert(t[0] == x);
        assert(t.skip(1) =~= Seq::<u8>::empty());
        assert(count_byte(t, b) == (if t[0] == b {
            1int
        } else {
            0int
        }) + count_byte(t.skip(1), b));
    } else {
        assert(t[0] == s[0]);
        assert(t.skip(1) =~= s.skip(1).push(x));
        lemma_count_byte_push(s.skip(1), b, x);
        assert(count_byte(t, b) == (if t[0] == b {
            1int
        } else {
            0int
        }) + count_byte(t.skip(1), b));
        assert(count_byte(s, b) == (if s[0] == b {
            1int
        } else {
            0int
        }) + count_byte(s.skip(1), b));
    }
}

proof fn lemma_digit_count_push(s: Seq<u8>, x: u8)
    ensures
        digit_count(s.push(x)) == digit_count(s) + (if is_digit(x) {
            1int
        } else {
            0int
        }),
    decreases s.len(),
{
    let t = s.push(x);
    if s.len() == 0 {
        assert(t[0] == x);
        assert(t.skip(1) =~= Seq::<u8>::empty());
        assert(digit_count(t) == (if is_digit(t[0]) {
            1int
        } else {
            0int
        }) + digit_count(t.skip(1)));
    } else {
        assert(t[0] == s[0]);
        assert(t.skip(1) =~= s.skip(1).push(x));
        lemma_digit_count_push(s.skip(1), x);
        assert(digit_count(t) == (if is_digit(t[0]) {
            1int
        } else {
            0int
        }) + digit_count(t.skip(1)));
        assert(digit_count(s) == (if is_digit(s[0]) {
            1int
        } else {
            0int
        }) + digit_count(s.skip(1)));
    }
}

/// The ASCII lower-casing of the whole byte string.
fn lower_vec(b: &Vec<u8>) -> (r: Vec<u8>)
    ensures
        r@ == lower_seq(b@),
{
    let mut out: Vec<u8> = Vec::new();
    let mut i: usize = 0;
    while i < b.len()
        invariant
            i <= b.len(),
            out@ == lower_seq(b@.take(i as int)),
        decreases b.len() - i,
    {
        let c = b[i];
        if 65 <= c && c <= 90 {
            out.push(c + 32);
        } else {
            out.push(c);
        }
        proof {
            assert(out@ =~= lower_seq(b@.take(i + 1)));
        }
        i = i + 1;
    }
    proof {
        assert(b@.take(b@.len() as int) =~= b@);
    }
    out
}

/// True exactly when `b` is a float keyword (`inf`, `infinity`, `nan` in
/// any case).
fn is_keyword_check(b: &Vec<u8>) -> (r: bool)
    ensures
        r == is_keyword(b@),
{
    let lv = lower_vec(b);
    let mut inf: Vec<u8> = Vec::new();
    inf.push(105);
    inf.push(110);
    inf.push(102);
    proof {
        assert(inf@ =~= kw_inf());
    }
    let mut infinity: Vec<u8> = Vec::new();
    infinity.push(105);
    infinity.push(110);
    infinity.push(102);
    infinity.push(105);
    infinity.push(110);
    infinity.push(105);
    infinity.push(116);
    infinity.push(121);
    proof {
        assert(infinity@ =~= kw_infinity());
    }
    let mut nan: Vec<u8> = Vec::new();
    nan.push(110);
    nan.push(97);
    nan.push(110);
    proof {
        assert(nan@ =~= kw_nan());
    }
    let r1 = crate::bytes::bytes_eq(&lv, &inf);
    let r2 = crate::bytes::bytes_eq(&lv, &infinity);
    let r3 = crate::bytes::bytes_eq(&lv, &nan);
    r1 || r2 || r3
}

/// True exactly when `b` is an unsigned number (mantissa with optional
/// exponent).
fn is_number_check(b: &Vec<u8>) -> (r: bool)
    ensures
        r == is_number(b@),
{
    let mut fe: usize = 0;
    while fe < b.len() && !(b[fe] == 101 || b[fe] == 69)
        invariant
            fe <= b.len(),
            forall|k: int| 0 <= k < fe ==> !(b@[k] == 101 || b@[k] == 69),
        decreases b.len() - fe,
    {
        fe = fe + 1;
    }
    proof {
        lemma_first_marker_is(b@, fe as int);
    }
    let mut dots: usize = 0;
    let mut digs: usize = 0;
    let mut j: usize = 0;
    while j < fe
        invariant
            j <= fe <= b.len(),
            first_exp_marker(b@) == fe,
            dots <= j,
            digs <= j,
            dots == count_byte(b@.take(j as int), 46),
            digs == digit_count(b@.take(j as int)),
            forall|k: int| 0 <= k < j ==> (is_digit(b@[k]) || b@[k] == 46),
        decreases fe - j,
    {
        let c = b[j];
        proof {
            assert(b@.take(j + 1) =~= b@.take(j as int).push(b@[j as int]));
            lemma_count_byte_push(b@.take(j as int), 46, b@[j as int]);
            lemma_digit_count_push(b@.take(j as int), b@[j as int]);
        }
        if c == 46 {
            dots = dots + 1;
        } else if 48 <= c && c <= 57 {
            digs = digs + 1;
        } else {
            proof {
                assert(0 <= j < b@.take(fe as int).len());
                assert(b@.take(fe as int)[j as int] == b@[j as int]);
                assert(!(is_digit(b@[j as int]) || b@[j as int] == 46));
                if fe == b@.len() {
                    assert(b@.take(fe as int) =~= b@);
                }
                assert(!is_mantissa(b@.take(fe as int)));
            }
            return false;
        }
        j = j + 1;
    }
    if digs == 0 || dots > 1 {
        proof {
            if fe == b@.len() {
                assert(b@.take(fe as int) =~= b@);
            }
            assert(!is_mantissa(b@.take(fe as int)));
        }
        return false;
    }
    proof {
        assert(is_mantissa(b@.take(fe as int)));
    }
    if fe == b.len() {
        proof {
            assert(b@.take(fe as int) =~= b@);
        }
        return true;
    }
    let mut p: usize = fe + 1;
    let ghost et = b@.skip(fe + 1);
    if p < b.len() && (b[p] == 43 || b[p] == 45) {
        p = p + 1;
        if p == b.len() {
            proof {
                assert(et.len() == 1 && (et[0] == 43 || et[0] == 45));
                assert(!is_exp_tail(et));
            }
            return false;
        }
    } else if p == b.len() {
        proof {
            assert(et.len() == 0);
            assert(!is_exp_tail(et));
        }
        return false;
    }
    let digit_start = p;
    let mut q: usize = p;
    while q < b.len()
        invariant
            digit_start <= q <= b.len(),
            fe < b.len(),
            first_exp_marker(b@) == fe,
            is_mantissa(b@.take(fe as int)),
            et == b@.skip(fe + 1),
            (digit_start == fe + 1 && fe + 1 < b.len() && !(b@[fe + 1] == 43 || b@[fe + 1] == 45))
                || (digit_start == fe + 2 && fe + 2 <= b.len() && (b@[fe + 1] == 43 || b@[fe + 1]
                == 45)),
            forall|k: int| digit_start <= k < q ==> is_digit(b@[k]),
        decreases b.len() - q,
    {
        let c = b[q];
        if !(48 <= c && c <= 57) {
            proof {
                if digit_start == fe + 1 {
                    assert(et[q - digit_start] == b@[q as int]);
                    assert(!is_exp_tail(et));
                } else {
                    assert(et[0] == 43 || et[0] == 45);
                    assert(et.skip(1)[q - digit_start] == b@[q as int]);
                    assert(!all_digits(et.skip(1)));
                    assert(!is_exp_tail(et));
                }
            }
            return false;
        }
        q = q + 1;
    }
    proof {
        if digit_start == fe + 1 {
            assert(forall|m: int| 0 <= m < et.len() ==> et[m] == b@[fe + 1 + m]);
            assert(all_digits(et));
            assert(et.len() > 0);
            assert(is_exp_tail(et));
        } else {
            assert(et[0] == 43 || et[0] == 45);
            assert(forall|m: int| 0 <= m < et.skip(1).len() ==> et.skip(1)[m] == b@[fe + 2 + m]);
            assert(all_digits(et.skip(1)));
            assert(et.len() > 1);
            assert(is_exp_tail(et));
        }
        assert(is_number(b@));
    }
    true
}

/// True exactly when the bytes read as a 64-bit float.
pub fn is_float_text_check(t: &Vec<u8>) -> (r: bool)
    ensures
        r == is_float_text(t@),
{
    if t.len() == 0 {
        return false;
    }
    let first = t[0];
    let start: usize = if first == 43 || first == 45 {
        1
    } else {
        0
    };
    let body = crate::bytes::subrange_vec(t, start, t.len());
    proof {
        assert(body@ =~= t@.skip(start as int));
        if start == 0 {
            assert(body@ =~= t@);
        }
    }
    if is_keyword_check(&body) {
        return true;
    }
    is_number_check(&body)
}

} // verus!
