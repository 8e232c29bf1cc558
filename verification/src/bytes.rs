//! Byte-string helpers the line protocol is built on: ASCII-whitespace
//! trimming, decimal rendering of a counter, byte-wise equality and
//! separator splitting, each proved against a direct mathematical spec.

use vstd::prelude::*;

verus! {

/// The ASCII whitespace bytes that trimming removes: tab, line feed,
/// vertical tab, form feed, carriage return, space.
pub open spec fn is_ws(b: u8) -> bool {
    b == 9 || b == 10 || b == 11 || b == 12 || b == 13 || b == 32
}

/// `s` without its leading whitespace bytes.
pub open spec fn trim_start_spec(s: Seq<u8>) -> Seq<u8>
    decreases s.len(),
{
    if s.len() > 0 && is_ws(s[0]) {
        trim_start_spec(s.skip(1))
    } else {
        s
    }
}

/// `s` without its trailing whitespace bytes.
pub open spec fn trim_end_spec(s: Seq<u8>) -> Seq<u8>
    decreases s.len(),
{
    if s.len() > 0 && is_ws(s.last()) {
        trim_end_spec(s.drop_last())
    } else {
        s
    }
}

/// `s` without leading and trailing whitespace bytes.
pub open spec fn trim_spec(s: Seq<u8>) -> Seq<u8> {
    trim_end_spec(trim_start_spec(s))
}

proof fn lemma_trim_start_skip(s: Seq<u8>, i: int)
    requires
        0 <= i <= s.len(),
        forall|k: int| 0 <= k < i ==> is_ws(s[k]),
    ensures
        trim_start_spec(s) == trim_start_spec(s.skip(i)),
    decreases i,
{
    if i > 0 {
        assert(trim_start_spec(s) == trim_start_spec(s.skip(1)));
        lemma_trim_start_skip(s.skip(1), i - 1);
        assert(s.skip(1).skip(i - 1) =~= s.skip(i));
    } else {
        assert(s.skip(0) =~= s);
    }
}

proof fn lemma_trim_end_take(s: Seq<u8>, h: int)
    requires
        0 <= h <= s.len(),
        forall|k: int| h <= k < s.len() ==> is_ws(s[k]),
    ensures
        trim_end_spec(s) == trim_end_spec(s.take(h)),
    decreases s.len(),
{
    if s.len() > h {
        assert(is_ws(s.last()));
        assert(s.drop_last() =~= s.take(s.len() - 1));
        lemma_trim_end_take(s.take(s.len() - 1), h);
        assert(s.take(s.len() - 1).take(h) =~= s.take(h));
    } else {
        assert(s.take(h) =~= s);
    }
}

/// True exactly when `b` is one of the whitespace bytes of `is_ws`.
pub fn is_ws_byte(b: u8) -> (r: bool)
    ensures
        r == is_ws(b),
{
    b == 9 || b == 10 || b == 11 || b == 12 || b == 13 || b == 32
}

/// A copy of `s` with leading and trailing ASCII whitespace removed.
pub fn trim(s: &Vec<u8>) -> (r: Vec<u8>)
    ensures
        r@ == trim_spec(s@),
{
    let mut lo: usize = 0;
    while lo < s.len() && is_ws_byte(s[lo])
        invariant
            lo <= s.len(),
            forall|k: int| 0 <= k < lo ==> is_ws(s@[k]),
        decreases s.len() - lo,
    {
        lo = lo + 1;
    }
    let mut hi: usize = s.len();
    while hi > lo && is_ws_byte(s[hi - 1])
        invariant
            lo <= hi <= s.len(),
            forall|k: int| hi <= k < s.len() ==> is_ws(s@[k]),
        decreases hi,
    {
        hi = hi - 1;
    }
    proof {
        lemma_trim_start_skip(s@, lo as int);
        assert(trim_start_spec(s@) == trim_start_spec(s@.skip(lo as int)));
        if lo < s.len() {
            assert(!is_ws(s@[lo as int]));
            assert(trim_start_spec(s@.skip(lo as int)) == s@.skip(lo as int));
        } else {
            assert(s@.skip(lo as int) =~= Seq::<u8>::empty());
            assert(trim_start_spec(s@.skip(lo as int)) == s@.skip(lo as int));
        }
        lemma_trim_end_take(s@.skip(lo as int), hi - lo);
        if hi > lo {
            assert(!is_ws(s@[hi - 1]));
            assert(s@.skip(lo as int).take(hi - lo).last() == s@[hi - 1]);
            assert(trim_end_spec(s@.skip(lo as int).take(hi - lo)) == s@.skip(lo as int).take(
                hi - lo,
            ));
        } else {
            assert(s@.skip(lo as int).take(hi - lo) =~= Seq::<u8>::empty());
        }
        assert(s@.skip(lo as int).take(hi - lo) =~= s@.subrange(lo as int, hi as int));
        assert(trim_spec(s@) == s@.subrange(lo as int, hi as int));
    }
    let mut out: Vec<u8> = Vec::new();
    let mut i: usize = lo;
    while i < hi
        invariant
            lo <= i <= hi <= s.len(),
            out@ == s@.subrange(lo as int, i as int),
        decreases hi - i,
    {
        out.push(s[i]);
        proof {
            assert(out@ =~= s@.subrange(lo as int, i + 1));
        }
        i = i + 1;
    }
    proof {
        assert(out@ == trim_spec(s@));
    }
    out
}

/// The decimal digits of `n`, most significant first, as ASCII bytes.
pub open spec fn dec_str(n: nat) -> Seq<u8>
    decreases n,
{
    if n < 10 {
        seq![(48 + n) as u8]
    } else {
        dec_str((n / 10) as nat).push((48 + n % 10) as u8)
    }
}

/// The decimal rendering of `n` as ASCII bytes.
pub fn dec_bytes(n: u64) -> (r: Vec<u8>)
    ensures
        r@ == dec_str(n as nat),
    decreases n,
{
    if n < 10 {
        let mut v: Vec<u8> = Vec::new();
        v.push(48 + n as u8);
        v
    } else {
        let mut v = dec_bytes(n / 10);
        v.push(48 + (n % 10) as u8);
        v
    }
}

/// `s` split on the separator byte: the sequence of (possibly empty)
/// fragments between occurrences of `sep`, in order.  Splitting never
/// yields an empty sequence; a separator-free string is one fragment.
pub open spec fn split_spec(s: Seq<u8>, sep: u8) -> Seq<Seq<u8>>
    decreases s.len(),
{
    if s.len() == 0 {
        seq![Seq::<u8>::empty()]
    } else if s[0] == sep {
        seq![Seq::<u8>::empty()] + split_spec(s.skip(1), sep)
    } else {
        let rest = split_spec(s.skip(1), sep);
        rest.update(0, seq![s[0]] + rest[0])
    }
}

/// A separator-free string splits into exactly itself.
pub proof fn lemma_split_no_sep(s: Seq<u8>, sep: u8)
    requires
        forall|k: int| 0 <= k < s.len() ==> s[k] != sep,
    ensures
        split_spec(s, sep) == seq![s],
    decreases s.len(),
{
    if s.len() == 0 {
        assert(split_spec(s, sep) =~~= seq![s]);
    } else {
        lemma_split_no_sep(s.skip(1), sep);
        assert(seq![s[0]] + s.skip(1) =~= s);
        assert(split_spec(s, sep) =~~= seq![s]);
    }
}

/// A separator after a separator-free prefix cuts the split there.
pub proof fn lemma_split_prepend(t: Seq<u8>, r: Seq<u8>, sep: u8)
    requires
        forall|k: int| 0 <= k < t.len() ==> t[k] != sep,
    ensures
        split_spec(t + seq![sep] + r, sep) == seq![t] + split_spec(r, sep),
    decreases t.len(),
{
    let s = t + seq![sep] + r;
    if t.len() == 0 {
        assert(s =~= seq![sep] + r);
        assert(s[0] == sep);
        assert(s.skip(1) =~= r);
        assert(split_spec(s, sep) =~~= seq![t] + split_spec(r, sep));
    } else {
        assert(s[0] == t[0]);
        assert(s.skip(1) =~= t.skip(1) + seq![sep] + r);
        lemma_split_prepend(t.skip(1), r, sep);
        let rest = split_spec(s.skip(1), sep);
        assert(rest == seq![t.skip(1)] + split_spec(r, sep));
        assert(rest[0] == t.skip(1));
        assert(seq![s[0]] + rest[0] =~= t);
        assert(split_spec(s, sep) =~~= seq![t] + split_spec(r, sep));
    }
}

/// The fragments of `s` between occurrences of `sep`, in order.
pub fn split_bytes(s: &Vec<u8>, sep: u8) -> (r: Vec<Vec<u8>>)
    ensures
        r@.map_values(|t: Vec<u8>| t@) == split_spec(s@, sep),
{
    let mut out: Vec<Vec<u8>> = Vec::new();
    let mut cur: Vec<u8> = Vec::new();
    let mut i: usize = 0;
    proof {
        assert(cur@ + s@.skip(0) =~= s@);
        assert(out@.map_values(|t: Vec<u8>| t@) + split_spec(s@, sep) =~~= split_spec(s@, sep));
    }
    while i < s.len()
        invariant
            i <= s.len(),
            forall|k: int| 0 <= k < cur@.len() ==> cur@[k] != sep,
            split_spec(s@, sep) == out@.map_values(|t: Vec<u8>| t@) + split_spec(
                cur@ + s@.skip(i as int),
                sep,
            ),
        decreases s.len() - i,
    {
        if s[i] == sep {
            proof {
                assert(cur@ + s@.skip(i as int) =~= cur@ + seq![sep] + s@.skip(i + 1));
                lemma_split_prepend(cur@, s@.skip(i + 1), sep);
            }
            let ghost outv0 = out@.map_values(|t: Vec<u8>| t@);
            let done = cur;
            cur = Vec::new();
            out.push(done);
            proof {
                assert(out@.map_values(|t: Vec<u8>| t@) =~~= outv0.push(done@));
                assert(outv0.push(done@) + split_spec(s@.skip(i + 1), sep) =~~= outv0 + (seq![
                    done@,
                ] + split_spec(s@.skip(i + 1), sep)));
                assert(cur@ + s@.skip(i + 1) =~= s@.skip(i + 1));
            }
        } else {
            let ghost cur0 = cur@;
            let b = s[i];
            cur.push(b);
            proof {
                assert(cur@ + s@.skip(i + 1) =~= cur0 + s@.skip(i as int)) by {
                    assert(s@.skip(i as int) =~= seq![b] + s@.skip(i + 1));
                };
            }
        }
        i = i + 1;
    }
    proof {
        assert(cur@ + s@.skip(i as int) =~= cur@);
        lemma_split_no_sep(cur@, sep);
    }
    out.push(cur);
    proof {
        assert(out@.map_values(|t: Vec<u8>| t@) =~~= split_spec(s@, sep));
    }
    out
}

/// A copy of the bytes of `s` from `lo` (inclusive) to `hi` (exclusive).
pub fn subrange_vec(s: &Vec<u8>, lo: usize, hi: usize) -> (r: Vec<u8>)
    requires
        lo <= hi <= s@.len(),
    ensures
        r@ == s@.subrange(lo as int, hi as int),
{
    let mut out: Vec<u8> = Vec::new();
    let mut i: usize = lo;
    while i < hi
        invariant
            lo <= i <= hi <= s@.len(),
            out@ == s@.subrange(lo as int, i as int),
        decreases hi - i,
    {
        out.push(s[i]);
        proof {
            assert(out@ =~= s@.subrange(lo as int, i + 1));
        }
        i = i + 1;
    }
    out
}

/// True exactly when the two byte strings are equal.
pub fn bytes_eq(a: &Vec<u8>, b: &Vec<u8>) -> (r: bool)
    ensures
        r == (a@ == b@),
{
    if a.len() != b.len() {
        proof {
            assert(a@ != b@);
        }
        return false;
    }
    let mut i: usize = 0;
    while i < a.len()
        invariant
            a.len() == b.len(),
            i <= a.len(),
            forall|k: int| 0 <= k < i ==> a@[k] == b@[k],
        decreases a.len() - i,
    {
        if a[i] != b[i] {
            proof {
                assert(a@ != b@);
            }
            return false;
        }
        i = i + 1;
    }
    proof {
        assert(a@ =~= b@);
    }
    true
}

} // verus!
