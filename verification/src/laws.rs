//! Structural guarantees of the slug model.
//!
//! The lemmas here establish, for every input:
//! - alphabet closure: every character of a slug is a lowercase ASCII letter,
//!   an ASCII digit, or the separator;
//! - no repeated separators, and no separator at either end of the slug
//!   (for a separator that is not itself a letter or digit);
//! - idempotence: slugifying a slug again, with the same separator, returns
//!   it unchanged (for a separator whose reprocessing triggers a separator
//!   emission, see [`sep_retriggers`]);
//! - case normalization: an uppercase ASCII letter in the input contributes
//!   exactly its lowercase equivalent to the output.

use vstd::prelude::*;

use crate::model::{emit_sep, init_state, is_ascii_upper, is_lower_alnum, lower_char,
    run_chars, sep_retriggers, slug_of, step_ascii, step_char, steps_ascii, SlugState};
use crate::translit::translit_of;

verus! {

/// Every character of `out` is a lowercase ASCII letter, an ASCII digit, or
/// the separator.
pub open spec fn slug_alphabet(out: Seq<char>, sep: char) -> bool {
    forall|i: int| 0 <= i < out.len() ==> is_lower_alnum(#[trigger] out[i]) || out[i] == sep
}

/// No two adjacent characters of `out` are both the separator.
pub open spec fn no_repeated_separators(out: Seq<char>, sep: char) -> bool {
    forall|i: int|
        0 <= i && i + 1 < out.len() ==> !((#[trigger] out[i]) == sep && out[i + 1] == sep)
}

/// A well-formed slug: alphabet closure, no repeated separators, and no
/// separator at either end.
pub open spec fn is_canonical_slug(t: Seq<char>, sep: char) -> bool {
    &&& slug_alphabet(t, sep)
    &&& no_repeated_separators(t, sep)
    &&& t.len() > 0 ==> t[0] != sep && t.last() != sep
}

/// Lowercasing an uppercase ASCII letter lands on the corresponding
/// lowercase ASCII letter.
pub proof fn lemma_lower_char_alnum(c: char)
    requires
        is_ascii_upper(c),
    ensures
        is_lower_alnum(lower_char(c)),
        lower_char(c) as u32 == c as u32 + 32,
{
}

// ------------------------------------------------------------------
// Alphabet closure, for every separator.
// ------------------------------------------------------------------
proof fn lemma_emit_sep_alphabet(st: SlugState, sep: char)
    requires
        slug_alphabet(st.0, sep),
    ensures
        slug_alphabet(emit_sep(st, sep).0, sep),
{
}

proof fn lemma_step_ascii_alphabet(st: SlugState, sep: char, c: char)
    requires
        slug_alphabet(st.0, sep),
    ensures
        slug_alphabet(step_ascii(st, sep, c).0, sep),
{
    if is_ascii_upper(c) && !is_lower_alnum(c) {
        lemma_lower_char_alnum(c);
    }
}

proof fn lemma_steps_ascii_alphabet(st: SlugState, sep: char, u: Seq<char>)
    requires
        slug_alphabet(st.0, sep),
    ensures
        slug_alphabet(steps_ascii(st, sep, u).0, sep),
    decreases u.len(),
{
    if u.len() > 0 {
        lemma_steps_ascii_alphabet(st, sep, u.drop_last());
        lemma_step_ascii_alphabet(steps_ascii(st, sep, u.drop_last()), sep, u.last());
    }
}

proof fn lemma_step_char_alphabet(st: SlugState, sep: char, c: char)
    requires
        slug_alphabet(st.0, sep),
    ensures
        slug_alphabet(step_char(st, sep, c).0, sep),
{
    if translit_of(c) is Some && translit_of(c)->0.len() > 0 {
        lemma_steps_ascii_alphabet(st, sep, translit_of(c)->0);
    } else {
        lemma_emit_sep_alphabet(st, sep);
    }
}

proof fn lemma_run_chars_alphabet(st: SlugState, sep: char, s: Seq<char>)
    requires
        slug_alphabet(st.0, sep),
    ensures
        slug_alphabet(run_chars(st, sep, s).0, sep),
    decreases s.len(),
{
    if s.len() > 0 {
        lemma_run_chars_alphabet(st, sep, s.drop_last());
        lemma_step_char_alphabet(run_chars(st, sep, s.drop_last()), sep, s.last());
    }
}

/// Alphabet closure: every character of a slug is a lowercase ASCII letter,
/// an ASCII digit, or the separator.
pub proof fn lemma_alphabet_closure(s: Seq<char>, sep: char)
    ensures
        slug_alphabet(slug_of(s, sep), sep),
{
    lemma_run_chars_alphabet(init_state(), sep, s);
}

// ------------------------------------------------------------------
// Well-formedness of the builder state, for a separator that is not
// itself a letter or digit.
// ------------------------------------------------------------------
/// The invariant the builder state keeps during a pass: the output is over
/// the slug alphabet, has no repeated and no leading separator, and the flag
/// says whether the output is empty or ends in the separator.
spec fn wf_state(st: SlugState, sep: char) -> bool {
    &&& slug_alphabet(st.0, sep)
    &&& no_repeated_separators(st.0, sep)
    &&& st.0.len() > 0 ==> st.0[0] != sep
    &&& st.1 ==> st.0.len() == 0 || st.0.last() == sep
    &&& !st.1 ==> st.0.len() > 0 && st.0.last() != sep
}

proof fn lemma_emit_sep_wf(st: SlugState, sep: char)
    requires
        !is_lower_alnum(sep),
        wf_state(st, sep),
    ensures
        wf_state(emit_sep(st, sep), sep),
{
}

proof fn lemma_step_ascii_wf(st: SlugState, sep: char, c: char)
    requires
        !is_lower_alnum(sep),
        wf_state(st, sep),
    ensures
        wf_state(step_ascii(st, sep, c), sep),
{
    if is_ascii_upper(c) && !is_lower_alnum(c) {
        lemma_lower_char_alnum(c);
    }
}

proof fn lemma_steps_ascii_wf(st: SlugState, sep: char, u: Seq<char>)
    requires
        !is_lower_alnum(sep),
        wf_state(st, sep),
    ensures
        wf_state(steps_ascii(st, sep, u), sep),
    decreases u.len(),
{
    if u.len() > 0 {
        lemma_steps_ascii_wf(st, sep, u.drop_last());
        lemma_step_ascii_wf(steps_ascii(st, sep, u.drop_last()), sep, u.last());
    }
}

proof fn lemma_step_char_wf(st: SlugState, sep: char, c: char)
    requires
        !is_lower_alnum(sep),
        wf_state(st, sep),
    ensures
        wf_state(step_char(st, sep, c), sep),
{
    if translit_of(c) is Some && translit_of(c)->0.len() > 0 {
        lemma_steps_ascii_wf(st, sep, translit_of(c)->0);
    } else {
        lemma_emit_sep_wf(st, sep);
    }
}

proof fn lemma_run_chars_wf(st: SlugState, sep: char, s: Seq<char>)
    requires
        !is_lower_alnum(sep),
        wf_state(st, sep),
    ensures
        wf_state(run_chars(st, sep, s), sep),
    decreases s.len(),
{
    if s.len() > 0 {
        lemma_run_chars_wf(st, sep, s.drop_last());
        lemma_step_char_wf(run_chars(st, sep, s.drop_last()), sep, s.last());
    }
}

/// A slug built with a separator that is not itself a letter or digit is
/// canonical: it is over the slug alphabet, never repeats the separator, and
/// neither starts nor ends with it.
pub proof fn lemma_slug_canonical(s: Seq<char>, sep: char)
    requires
        !is_lower_alnum(sep),
    ensures
        is_canonical_slug(slug_of(s, sep), sep),
{
    lemma_run_chars_wf(init_state(), sep, s);
    let st = run_chars(init_state(), sep, s);
    if st.0.len() > 0 && st.0.last() == sep {
        let t = st.0.drop_last();
        assert forall|i: int| 0 <= i < t.len() implies is_lower_alnum(#[trigger] t[i]) || t[i]
            == sep by {
            assert(t[i] == st.0[i]);
        }
        if t.len() > 0 {
            assert(t.last() == st.0[st.0.len() - 2]);
            assert(!(st.0[st.0.len() - 2] == sep && st.0[st.0.len() - 1] == sep));
        }
    }
}

/// The output never contains two consecutive separator characters.
pub proof fn lemma_no_repeated_separators(s: Seq<char>, sep: char)
    requires
        !is_lower_alnum(sep),
    ensures
        no_repeated_separators(slug_of(s, sep), sep),
{
    lemma_slug_canonical(s, sep);
}

/// The output never starts or ends with the separator character.
pub proof fn lemma_no_edge_separators(s: Seq<char>, sep: char)
    requires
        !is_lower_alnum(sep),
    ensures
        slug_of(s, sep).len() > 0 ==> slug_of(s, sep)[0] != sep,
        slug_of(s, sep).len() > 0 ==> slug_of(s, sep).last() != sep,
{
    lemma_slug_canonical(s, sep);
}

// ------------------------------------------------------------------
// Idempotence.
// ------------------------------------------------------------------
/// A separator whose reprocessing triggers a separator emission is not
/// itself a kept character.
pub proof fn lemma_sep_retriggers_not_alnum(sep: char)
    requires
        sep_retriggers(sep),
    ensures
        !is_lower_alnum(sep),
{
    if is_lower_alnum(sep) {
        assert(translit_of(sep)->0[0] == sep);
    }
}

/// An ASCII separator that is neither a letter nor a digit — such as the
/// default `-`, or `_` or `.` — reprocesses to a separator emission: a
/// printable one transliterates to itself, which is a trigger, and a control
/// one transliterates to the empty run, which is also a trigger.
pub proof fn lemma_ascii_sep_retriggers(sep: char)
    requires
        (sep as u32) < 128,
        !is_lower_alnum(sep),
        !is_ascii_upper(sep),
    ensures
        sep_retriggers(sep),
{
    assert(forall|i: int| 0 <= i < seq![sep].len() ==> #[trigger] seq![sep][i] == sep);
}

/// Processing a run made only of separator-triggering ASCII values collapses
/// into a single separator emission.
proof fn lemma_steps_all_trigger(st: SlugState, sep: char, u: Seq<char>)
    requires
        u.len() > 0,
        forall|i: int| 0 <= i < u.len() ==> !is_lower_alnum(#[trigger] u[i]) && !is_ascii_upper(u[i]),
    ensures
        steps_ascii(st, sep, u) == emit_sep(st, sep),
    decreases u.len(),
{
    assert(u.last() == u[u.len() - 1]);
    assert(!is_lower_alnum(u[u.len() - 1]) && !is_ascii_upper(u[u.len() - 1]));
    if u.len() == 1 {
        assert(u.drop_last() =~= Seq::<char>::empty());
        assert(steps_ascii(st, sep, Seq::<char>::empty()) == st);
    } else {
        assert forall|i: int| 0 <= i < u.drop_last().len() implies !is_lower_alnum(
            #[trigger] u.drop_last()[i],
        ) && !is_ascii_upper(u.drop_last()[i]) by {
            assert(u.drop_last()[i] == u[i]);
        }
        lemma_steps_all_trigger(st, sep, u.drop_last());
    }
}

/// Reprocessing the separator itself is exactly one separator emission, for
/// a separator in the set [`sep_retriggers`] describes.
proof fn lemma_step_char_sep(st: SlugState, sep: char)
    requires
        sep_retriggers(sep),
    ensures
        step_char(st, sep, sep) == emit_sep(st, sep),
{
    if translit_of(sep) is Some && translit_of(sep)->0.len() > 0 {
        lemma_steps_all_trigger(st, sep, translit_of(sep)->0);
    }
}

/// Replaying a prefix of a canonical slug reproduces that prefix, with the
/// flag set exactly after a separator.
proof fn lemma_replay_prefix(t: Seq<char>, sep: char, i: int)
    requires
        sep_retriggers(sep),
        is_canonical_slug(t, sep),
        0 <= i <= t.len(),
    ensures
        run_chars(init_state(), sep, t.take(i)) == (t.take(i), i == 0 || t[i - 1] == sep),
    decreases i,
{
    lemma_sep_retriggers_not_alnum(sep);
    if i == 0 {
        assert(t.take(0) =~= Seq::<char>::empty());
    } else {
        lemma_replay_prefix(t, sep, i - 1);
        let p = t.take(i - 1);
        let c = t[i - 1];
        assert(t.take(i) =~= p.push(c));
        crate::model::lemma_run_chars_push(init_state(), sep, p, c);
        let st = run_chars(init_state(), sep, p);
        if is_lower_alnum(c) {
            crate::model::lemma_steps_ascii_single(st, sep, c);
            assert(step_char(st, sep, c) == (p.push(c), false));
        } else {
            assert(c == sep);
            lemma_step_char_sep(st, sep);
            assert(i - 1 > 0);
            assert(!(t[i - 2] == sep && t[i - 1] == sep));
            assert(!st.1);
            assert(step_char(st, sep, c) == (p.push(sep), true));
        }
    }
}

/// Slugifying a canonical slug returns it unchanged.
pub proof fn lemma_canonical_replay(t: Seq<char>, sep: char)
    requires
        sep_retriggers(sep),
        is_canonical_slug(t, sep),
    ensures
        slug_of(t, sep) == t,
{
    lemma_replay_prefix(t, sep, t.len() as int);
    assert(t.take(t.len() as int) =~= t);
}

/// Idempotence: slugifying twice, with the same separator, is the same as
/// slugifying once — for every separator whose own reprocessing triggers a
/// separator emission. (A separator outside that set can break this: with
/// separator `l`, the text `bell` slugifies to `bel` and again to `be`.)
pub proof fn lemma_idempotent(s: Seq<char>, sep: char)
    requires
        sep_retriggers(sep),
    ensures
        slug_of(slug_of(s, sep), sep) == slug_of(s, sep),
{
    lemma_sep_retriggers_not_alnum(sep);
    lemma_slug_canonical(s, sep);
    lemma_canonical_replay(slug_of(s, sep), sep);
}

// ------------------------------------------------------------------
// Case normalization.
// ------------------------------------------------------------------
/// Processing a concatenation is processing the parts in order.
pub proof fn lemma_run_chars_concat(st: SlugState, sep: char, a: Seq<char>, b: Seq<char>)
    ensures
        run_chars(st, sep, a + b) == run_chars(run_chars(st, sep, a), sep, b),
    decreases b.len(),
{
    if b.len() == 0 {
        assert(a + b =~= a);
    } else {
        lemma_run_chars_concat(st, sep, a, b.drop_last());
        assert((a + b).drop_last() =~= a + b.drop_last());
        assert((a + b).last() == b.last());
    }
}

/// Case normalization: an uppercase ASCII letter in the input contributes
/// exactly its lowercase equivalent to the output, immediately after
/// whatever the text before it produced, and the pass continues from there.
pub proof fn lemma_case_normalization(prefix: Seq<char>, c: char, suffix: Seq<char>, sep: char)
    requires
        is_ascii_upper(c),
    ensures
        ({
            let before = run_chars(init_state(), sep, prefix);
            run_chars(init_state(), sep, prefix + seq![c] + suffix) == run_chars(
                (before.0.push(lower_char(c)), false),
                sep,
                suffix,
            )
        }),
{
    lemma_run_chars_concat(init_state(), sep, prefix + seq![c], suffix);
    lemma_run_chars_concat(init_state(), sep, prefix, seq![c]);
    let before = run_chars(init_state(), sep, prefix);
    crate::model::lemma_run_chars_single(before, sep, c);
    crate::model::lemma_steps_ascii_single(before, sep, c);
    assert(step_char(before, sep, c) == (before.0.push(lower_char(c)), false));
}

} // verus!
