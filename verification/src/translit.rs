//! The Unicode-to-ASCII transliteration collaborator.
//!
//! The slug pipeline consumes a fixed table mapping each Unicode scalar value
//! to a run of ASCII scalar values (possibly empty), or to no mapping at all.
//! The table lives in the `deunicode` crate; this module gives its lookup a
//! name the rest of the library can reason about.

use vstd::prelude::*;

verus! {

/// A printable ASCII scalar value (space through tilde).
pub open spec fn is_printable_ascii(c: char) -> bool {
    32 <= (c as u32) && (c as u32) <= 126
}

/// An ASCII control scalar value (below space, or delete).
pub open spec fn is_control_ascii(c: char) -> bool {
    (c as u32) < 32 || (c as u32) == 127
}

/// The transliteration table's entry for a scalar value at or above 128:
/// the run of ASCII scalar values it maps to, if any. The table is fixed, so
/// the entry depends on the scalar value alone.
pub uninterp spec fn translit_mapping(c: char) -> Option<Seq<char>>;

/// The transliteration of one scalar value. Every printable ASCII scalar
/// value maps to itself, every ASCII control scalar value maps to the empty
/// run, and the rest go by the table.
pub open spec fn translit_of(c: char) -> Option<Seq<char>> {
    if is_printable_ascii(c) {
        Option::Some(seq![c])
    } else if is_control_ascii(c) {
        Option::Some(Seq::<char>::empty())
    } else {
        translit_mapping(c)
    }
}

/// Relies on deunicode::deunicode_char: the replacement for a character is a
/// fixed, ASCII-only string that depends on the character alone. Its shipped
/// table maps every printable ASCII character to itself and every ASCII
/// control character to the empty string; characters it does not know map to
/// `None`.
#[verifier::external_body]
pub(crate) fn translit_char(c: char) -> (r: Option<&'static str>)
    ensures
        is_printable_ascii(c) ==> r is Some && r->0@ == seq![c],
        is_control_ascii(c) ==> r is Some && r->0@ == Seq::<char>::empty(),
        (c as u32) >= 128 ==> (r is Some <==> translit_mapping(c) is Some),
        (c as u32) >= 128 && r is Some ==> r->0@ == translit_mapping(c)->0,
{
    deunicode::deunicode_char(c)
}

} // verus!
