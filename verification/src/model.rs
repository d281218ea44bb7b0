//! Mathematical model of the slug construction pipeline.
//!
//! A slug is built by a left-to-right pass over the input. The pass carries a
//! state: the output so far, and a flag that records whether the most recent
//! emission was a separator (the flag starts `true`, which suppresses a
//! leading separator). Each input scalar value is transliterated to a
//! (possibly empty) run of ASCII scalar values, and each of those is either
//! appended (lowercased if it is an uppercase letter) or collapsed into a
//! single separator emission.

use vstd::prelude::*;

use crate::translit::translit_of;

verus! {

/// A lowercase ASCII letter or an ASCII digit: kept verbatim in the slug.
pub open spec fn is_lower_alnum(c: char) -> bool {
    (('a' as u32) <= (c as u32) && (c as u32) <= ('z' as u32)) || (('0' as u32) <= (c as u32)
        && (c as u32) <= ('9' as u32))
}

/// An uppercase ASCII letter: lowercased before it is kept.
pub open spec fn is_ascii_upper(c: char) -> bool {
    ('A' as u32) <= (c as u32) && (c as u32) <= ('Z' as u32)
}

/// The lowercase equivalent of an uppercase ASCII letter, by fixed offset.
pub open spec fn lower_char(c: char) -> char {
    (((c as u32) + 32) as char)
}

/// The builder state: the output accumulated so far, and whether the most
/// recent emission was a separator (true also before anything was emitted).
pub type SlugState = (Seq<char>, bool);

/// The state at the start of a build: nothing emitted, flag set so that a
/// leading separator is suppressed.
pub open spec fn init_state() -> SlugState {
    (Seq::<char>::empty(), true)
}

/// A separator emission: appends the separator once, unless one was just
/// emitted (or nothing was emitted yet).
pub open spec fn emit_sep(st: SlugState, sep: char) -> SlugState {
    if st.1 {
        st
    } else {
        (st.0.push(sep), true)
    }
}

/// Processing of one transliterated ASCII scalar value: lowercase letters and
/// digits are appended verbatim, uppercase letters are lowercased and
/// appended, and anything else triggers a separator emission.
pub open spec fn step_ascii(st: SlugState, sep: char, c: char) -> SlugState {
    if is_lower_alnum(c) {
        (st.0.push(c), false)
    } else if is_ascii_upper(c) {
        (st.0.push(lower_char(c)), false)
    } else {
        emit_sep(st, sep)
    }
}

/// Processing of a run of transliterated ASCII scalar values, in order.
pub open spec fn steps_ascii(st: SlugState, sep: char, u: Seq<char>) -> SlugState
    decreases u.len(),
{
    if u.len() == 0 {
        st
    } else {
        step_ascii(steps_ascii(st, sep, u.drop_last()), sep, u.last())
    }
}

/// Processing of one input scalar value: transliterate it, then process the
/// resulting ASCII run; an empty or missing transliteration triggers a single
/// separator emission.
pub open spec fn step_char(st: SlugState, sep: char, c: char) -> SlugState {
    match translit_of(c) {
        Option::Some(u) => if u.len() == 0 {
            emit_sep(st, sep)
        } else {
            steps_ascii(st, sep, u)
        },
        Option::None => emit_sep(st, sep),
    }
}

/// Processing of a whole input, one scalar value at a time, left to right.
pub open spec fn run_chars(st: SlugState, sep: char, s: Seq<char>) -> SlugState
    decreases s.len(),
{
    if s.len() == 0 {
        st
    } else {
        step_char(run_chars(st, sep, s.drop_last()), sep, s.last())
    }
}

/// Processing a run extended by one ASCII scalar value is one more step.
pub proof fn lemma_steps_ascii_push(st: SlugState, sep: char, u: Seq<char>, c: char)
    ensures
        steps_ascii(st, sep, u.push(c)) == step_ascii(steps_ascii(st, sep, u), sep, c),
{
    assert(u.push(c).drop_last() =~= u);
    assert(u.push(c).last() == c);
}

/// Processing an input extended by one scalar value is one more step.
pub proof fn lemma_run_chars_push(st: SlugState, sep: char, s: Seq<char>, c: char)
    ensures
        run_chars(st, sep, s.push(c)) == step_char(run_chars(st, sep, s), sep, c),
{
    assert(s.push(c).drop_last() =~= s);
    assert(s.push(c).last() == c);
}

/// Processing a run of exactly one ASCII scalar value is one step.
pub proof fn lemma_steps_ascii_single(st: SlugState, sep: char, c: char)
    ensures
        steps_ascii(st, sep, seq![c]) == step_ascii(st, sep, c),
{
    assert(seq![c].drop_last() =~= Seq::<char>::empty());
    assert(seq![c].last() == c);
    assert(steps_ascii(st, sep, Seq::<char>::empty()) == st);
}

/// Processing an input of exactly one scalar value is one step.
pub proof fn lemma_run_chars_single(st: SlugState, sep: char, c: char)
    ensures
        run_chars(st, sep, seq![c]) == step_char(st, sep, c),
{
    assert(seq![c].drop_last() =~= Seq::<char>::empty());
    assert(seq![c].last() == c);
    assert(run_chars(st, sep, Seq::<char>::empty()) == st);
}

/// The final trim: a single trailing separator, if present, is removed.
pub open spec fn trim_trailing(out: Seq<char>, sep: char) -> Seq<char> {
    if out.len() > 0 && out.last() == sep {
        out.drop_last()
    } else {
        out
    }
}

/// The slug of an input under a given separator: the full pass from the
/// initial state, followed by the trailing trim.
pub open spec fn slug_of(s: Seq<char>, sep: char) -> Seq<char> {
    trim_trailing(run_chars(init_state(), sep, s).0, sep)
}

/// Holds when reprocessing the separator itself triggers a separator
/// emission: its transliteration is absent, empty, or made of scalar values
/// that are neither kept nor lowercased. Separators outside this set (for
/// example, a letter, or a character that transliterates to a letter) can
/// produce slugs that change under a second pass.
pub open spec fn sep_retriggers(sep: char) -> bool {
    match translit_of(sep) {
        Option::Some(u) => forall|i: int|
            0 <= i < u.len() ==> !is_lower_alnum(#[trigger] u[i]) && !is_ascii_upper(u[i]),
        Option::None => true,
    }
}

} // verus!
