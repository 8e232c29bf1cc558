//! The line protocol: a line beginning with `#` is a data line whose
//! space-separated tokens yield named numeric samples; every other line is
//! free-text log output.  A `key=value` token is a sample named by the
//! trimmed key; a bare token is a sample named by the token's position.  A
//! keyed token whose value is not numeric yields a per-token error and
//! parsing continues; a malformed bare token is dropped silently.

use crate::bytes::{dec_str, split_spec, trim_spec};
use crate::numeric::is_float_text;
use vstd::prelude::*;

verus! {

/// One named numeric sample: the series name and the numeric value, kept
/// as the bytes it was written with.
#[derive(Debug)]
pub struct Sample {
    pub name: Vec<u8>,
    pub value: Vec<u8>,
}

/// The mathematical shadow of a `Sample`.
pub ghost struct SampleV {
    pub name: Seq<u8>,
    pub value: Seq<u8>,
}

impl View for Sample {
    type V = SampleV;

    open spec fn view(&self) -> SampleV {
        SampleV { name: self.name@, value: self.value@ }
    }
}

/// A line is a data line exactly when it begins with `#`.
pub open spec fn is_data_line(s: Seq<u8>) -> bool {
    s.len() > 0 && s[0] == 35
}

/// The tokens of a data line: everything after the sentinel, split on
/// single spaces.
pub open spec fn tokens_of(s: Seq<u8>) -> Seq<Seq<u8>> {
    split_spec(s.skip(1), 32)
}

/// A token split on `=`.
pub open spec fn eq_parts(t: Seq<u8>) -> Seq<Seq<u8>> {
    split_spec(t, 61)
}

/// The sample a token contributes, if any.  A token without `=` is a bare
/// value named by its position; a token with one `=` is named by its
/// trimmed key; any other token contributes nothing.
pub open spec fn token_sample(t: Seq<u8>, idx: nat) -> Option<SampleV> {
    let parts = eq_parts(t);
    if parts.len() == 1 {
        if is_float_text(trim_spec(t)) {
            Some(SampleV { name: dec_str(idx), value: trim_spec(t) })
        } else {
            None
        }
    } else if parts.len() == 2 {
        if is_float_text(parts[1]) {
            Some(SampleV { name: trim_spec(parts[0]), value: parts[1] })
        } else {
            None
        }
    } else {
        None
    }
}

/// A token is in error exactly when it is keyed and its value is not
/// numeric.  Malformed bare tokens and multi-`=` tokens are not errors.
pub open spec fn token_error(t: Seq<u8>) -> bool {
    eq_parts(t).len() == 2 && !is_float_text(eq_parts(t)[1])
}

/// The samples contributed by the tokens from position `i` on, in token
/// order.
pub open spec fn samples_from(toks: Seq<Seq<u8>>, i: int) -> Seq<SampleV>
    decreases toks.len() - i,
{
    if 0 <= i < toks.len() {
        (match token_sample(toks[i], i as nat) {
            Some(s) => seq![s],
            None => Seq::<SampleV>::empty(),
        }) + samples_from(toks, i + 1)
    } else {
        Seq::<SampleV>::empty()
    }
}

/// The positions, from `i` on, of the tokens in error.
pub open spec fn errors_from(toks: Seq<Seq<u8>>, i: int) -> Seq<int>
    decreases toks.len() - i,
{
    if 0 <= i < toks.len() {
        (if token_error(toks[i]) {
            seq![i]
        } else {
            Seq::<int>::empty()
        }) + errors_from(toks, i + 1)
    } else {
        Seq::<int>::empty()
    }
}

/// The samples contributed by the tokens before position `j`, in token
/// order.
pub open spec fn samples_upto(toks: Seq<Seq<u8>>, j: int) -> Seq<SampleV>
    decreases j,
{
    if 0 < j <= toks.len() {
        samples_upto(toks, j - 1) + (match token_sample(toks[j - 1], (j - 1) as nat) {
            Some(s) => seq![s],
            None => Seq::<SampleV>::empty(),
        })
    } else {
        Seq::<SampleV>::empty()
    }
}

proof fn lemma_samples_decompose(toks: Seq<Seq<u8>>, j: int)
    requires
        0 <= j <= toks.len(),
    ensures
        samples_from(toks, 0) == samples_upto(toks, j) + samples_from(toks, j),
    decreases j,
{
    if j == 0 {
        assert(samples_upto(toks, 0) + samples_from(toks, 0) =~= samples_from(toks, 0));
    } else {
        lemma_samples_decompose(toks, j - 1);
        assert(samples_from(toks, j - 1) == (match token_sample(toks[j - 1], (j - 1) as nat) {
            Some(s) => seq![s],
            None => Seq::<SampleV>::empty(),
        }) + samples_from(toks, j));
        assert(samples_upto(toks, j) + samples_from(toks, j) =~= samples_upto(toks, j - 1) + ((
        match token_sample(toks[j - 1], (j - 1) as nat) {
            Some(s) => seq![s],
            None => Seq::<SampleV>::empty(),
        }) + samples_from(toks, j)));
    }
}

/// No token aborts the line: whatever stands at position `j` — well
/// formed, malformed keyed, or malformed bare — the samples of the whole
/// line are those of the tokens before `j`, then `j`'s own contribution
/// (possibly none), then exactly the samples of every remaining token.
pub proof fn lemma_no_token_aborts_line(toks: Seq<Seq<u8>>, j: int)
    requires
        0 <= j < toks.len(),
    ensures
        samples_from(toks, 0) == samples_upto(toks, j) + (match token_sample(toks[j], j as nat) {
            Some(s) => seq![s],
            None => Seq::<SampleV>::empty(),
        }) + samples_from(toks, j + 1),
{
    lemma_samples_decompose(toks, j);
    assert(samples_from(toks, j) == (match token_sample(toks[j], j as nat) {
        Some(s) => seq![s],
        None => Seq::<SampleV>::empty(),
    }) + samples_from(toks, j + 1));
    assert(samples_upto(toks, j) + ((match token_sample(toks[j], j as nat) {
        Some(s) => seq![s],
        None => Seq::<SampleV>::empty(),
    }) + samples_from(toks, j + 1)) =~= samples_upto(toks, j) + (match token_sample(
        toks[j],
        j as nat,
    ) {
        Some(s) => seq![s],
        None => Seq::<SampleV>::empty(),
    }) + samples_from(toks, j + 1));
}

/// A bare token — one without `=` — never surfaces an error: if its value
/// is not numeric it is dropped with no sample and no error.
pub proof fn lemma_bare_token_silent(t: Seq<u8>, idx: nat)
    requires
        eq_parts(t).len() == 1,
    ensures
        !token_error(t),
        !is_float_text(trim_spec(t)) ==> token_sample(t, idx) is None,
{
}

/// What one line parses to: free text, or a data line's samples together
/// with the positions of its malformed keyed tokens.
#[derive(Debug)]
pub enum ParsedLine {
    Log,
    Data { samples: Vec<Sample>, errors: Vec<usize> },
}

/// Parse one line (with no trailing newline).  A line that does not begin
/// with `#` is log text and yields no samples; a data line yields exactly
/// the samples of its tokens in token order, and an error position for
/// each keyed token whose value is not numeric.
pub fn parse_line(line: &Vec<u8>) -> (r: ParsedLine)
    ensures
        !is_data_line(line@) ==> r matches ParsedLine::Log,
        is_data_line(line@) ==> (r matches ParsedLine::Data { samples, errors } && samples@
            .map_values(|s: Sample| s@) == samples_from(tokens_of(line@), 0) && errors@.map_values(
            |e: usize| e as int,
        ) == errors_from(tokens_of(line@), 0)),
{
    if line.len() == 0 || line[0] != 35 {
        return ParsedLine::Log;
    }
    let rest = crate::bytes::subrange_vec(line, 1, line.len());
    proof {
        assert(rest@ =~= line@.skip(1));
    }
    let toks = crate::bytes::split_bytes(&rest, 32);
    let ghost toksv = tokens_of(line@);
    proof {
        assert(toks@.map_values(|t: Vec<u8>| t@) == toksv);
    }
    let mut samples: Vec<Sample> = Vec::new();
    let mut errors: Vec<usize> = Vec::new();
    let mut i: usize = 0;
    proof {
        assert(samples@.map_values(|s: Sample| s@) + samples_from(toksv, 0) =~~= samples_from(
            toksv,
            0,
        ));
        assert(errors@.map_values(|e: usize| e as int) + errors_from(toksv, 0) =~~= errors_from(
            toksv,
            0,
        ));
    }
    while i < toks.len()
        invariant
            i <= toks.len(),
            toks@.map_values(|t: Vec<u8>| t@) == toksv,
            samples_from(toksv, 0) == samples@.map_values(|s: Sample| s@) + samples_from(
                toksv,
                i as int,
            ),
            errors_from(toksv, 0) == errors@.map_values(|e: usize| e as int) + errors_from(
                toksv,
                i as int,
            ),
        decreases toks.len() - i,
    {
        let ghost samplesv0 = samples@.map_values(|s: Sample| s@);
        let ghost errorsv0 = errors@.map_values(|e: usize| e as int);
        proof {
            assert(toksv[i as int] == toks@[i as int]@);
        }
        let tok = &toks[i];
        let mut parts = crate::bytes::split_bytes(tok, 61);
        if parts.len() == 1 {
            let tr = crate::bytes::trim(tok);
            if crate::numeric::is_float_text_check(&tr) {
                let name = crate::bytes::dec_bytes(i as u64);
                samples.push(Sample { name, value: tr });
                proof {
                    assert(samples@.map_values(|s: Sample| s@) =~~= samplesv0.push(
                        samples@[samples@.len() - 1]@,
                    ));
                    assert(token_sample(toksv[i as int], i as nat) matches Some(sv)
                        && samples@[samples@.len() - 1]@ == sv);
                }
            }
        } else if parts.len() == 2 {
            let value = parts.pop().unwrap();
            if crate::numeric::is_float_text_check(&value) {
                let key_raw = parts.pop().unwrap();
                let name = crate::bytes::trim(&key_raw);
                samples.push(Sample { name, value });
                proof {
                    assert(samples@.map_values(|s: Sample| s@) =~~= samplesv0.push(
                        samples@[samples@.len() - 1]@,
                    ));
                    assert(token_sample(toksv[i as int], i as nat) matches Some(sv)
                        && samples@[samples@.len() - 1]@ == sv);
                }
            } else {
                errors.push(i);
                proof {
                    assert(errors@.map_values(|e: usize| e as int) =~~= errorsv0.push(i as int));
                }
            }
        }
        proof {
            assert(samples_from(toksv, i as int) == (match token_sample(toksv[i as int], i as nat) {
                Some(s) => seq![s],
                None => Seq::<SampleV>::empty(),
            }) + samples_from(toksv, i + 1));
            assert(errors_from(toksv, i as int) == (if token_error(toksv[i as int]) {
                seq![i as int]
            } else {
                Seq::<int>::empty()
            }) + errors_from(toksv, i + 1));
            assert(samples_from(toksv, 0) =~~= samples@.map_values(|s: Sample| s@) + samples_from(
                toksv,
                i + 1,
            ));
            assert(errors_from(toksv, 0) =~~= errors@.map_values(|e: usize| e as int) + errors_from(
                toksv,
                i + 1,
            ));
        }
        i = i + 1;
    }
    proof {
        assert(samples@.map_values(|s: Sample| s@) =~~= samples_from(toksv, 0));
        assert(errors@.map_values(|e: usize| e as int) =~~= errors_from(toksv, 0));
    }
    ParsedLine::Data { samples, errors }
}

} // verus!
