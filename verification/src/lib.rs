//! Conversion of arbitrary text into URL-friendly slugs.
//!
//! A slug is a string of lowercase ASCII letters and digits joined by a
//! single configurable separator character, with no leading, trailing or
//! repeated separators. Input characters outside ASCII are transliterated to
//! ASCII first; whatever then is not a letter or digit collapses into one
//! separator.
//!
//! The contract of [`Slugifier::slugify`] ties the returned string to the
//! character-by-character model in [`model`], and the lemmas in [`laws`]
//! establish the structural guarantees of that model: the output alphabet,
//! the absence of doubled and edge separators, and idempotence.
//!
//! A separator that is itself a letter or digit, or that transliterates to
//! one, is not rejected, but slugs built with it can violate those
//! guarantees; see [`model::sep_retriggers`].

use vstd::prelude::*;

pub mod laws;
pub mod model;
pub mod translit;

mod textbuf;

verus! {

/// A utility for converting strings into URL-friendly slugs.
///
/// A `Slugifier` converts arbitrary input strings into slugs composed of
/// lowercase ASCII alphanumeric characters, separated by a customizable
/// character (default is `-`).
#[derive(Clone, Debug)]
pub struct Slugifier {
    separator: char,
}

impl Default for Slugifier {
    /// Creates a default `Slugifier` with `-` as the separator.
    fn default() -> (r: Self)
        ensures
            r.sep() == '-',
    {
        Slugifier { separator: '-' }
    }
}

impl Slugifier {
    /// The separator character used to join alphanumeric runs.
    pub closed spec fn sep(&self) -> char {
        self.separator
    }

    /// Sets the separator character to be used in the slug.
    pub fn set_separator(&mut self, value: char)
        ensures
            final(self).sep() == value,
    {
        self.separator = value;
    }

    /// Returns a new `Slugifier` with the specified separator character.
    pub fn with_separator(self, value: char) -> (r: Self)
        ensures
            r.sep() == value,
    {
        let mut updated = self;
        updated.set_separator(value);
        updated
    }

    /// Converts the input into a slug string using the current separator.
    ///
    /// Uppercase ASCII letters are lowercased, characters outside ASCII are
    /// transliterated to ASCII first, and every run of remaining
    /// non-alphanumeric content collapses into a single separator, with no
    /// separator at either end.
    pub fn slugify(&self, input: &str) -> (r: String)
        ensures
            r@ == model::slug_of(input@, self.sep()),
    {
        let mut writer = SlugWriter::new(self.separator);
        writer.push_str(input);
        writer.into_inner()
    }
}

/// The build accumulator for a single slugification pass: the output built so
/// far, and a flag recording whether the most recent emission was a separator
/// (initially set, so that no leading separator is emitted).
struct SlugWriter {
    separator: char,
    buffer: String,
    previous_separator: bool,
}

impl SlugWriter {
    /// The separator this writer emits.
    spec fn sep(&self) -> char {
        self.separator
    }

    /// The writer's state as the model sees it.
    spec fn st(&self) -> model::SlugState {
        (self.buffer@, self.previous_separator)
    }

    fn new(separator: char) -> (r: Self)
        ensures
            r.sep() == separator,
            r.st() == model::init_state(),
    {
        let r = SlugWriter { separator, buffer: String::new(), previous_separator: true };
        proof {
            assert(r.st().0 =~= model::init_state().0);
        }
        r
    }

    fn push_separator(&mut self)
        ensures
            final(self).sep() == old(self).sep(),
            final(self).st() == model::emit_sep(old(self).st(), old(self).sep()),
    {
        if !self.previous_separator {
            textbuf::string_push(&mut self.buffer, self.separator);
            self.previous_separator = true;
        }
    }

    fn push_char(&mut self, value: char)
        ensures
            final(self).sep() == old(self).sep(),
            final(self).st() == model::step_ascii(old(self).st(), old(self).sep(), value),
    {
        let v: u32 = value as u32;
        if (('a' as u32) <= v && v <= ('z' as u32)) || (('0' as u32) <= v && v <= ('9' as u32)) {
            self.previous_separator = false;
            textbuf::string_push(&mut self.buffer, value);
        } else if ('A' as u32) <= v && v <= ('Z' as u32) {
            self.previous_separator = false;
            let lowered: u8 = (v + 32) as u8;
            assert(lowered == v + 32) by (bit_vector)
                requires
                    65 <= v && v <= 90 && lowered == (v + 32) as u8,
            ;
            textbuf::string_push(&mut self.buffer, lowered as char);
            assert((lowered as char) == model::lower_char(value));
        } else {
            self.push_separator();
        }
    }

    fn push_str(&mut self, value: &str)
        ensures
            final(self).sep() == old(self).sep(),
            final(self).st() == model::run_chars(old(self).st(), old(self).sep(), value@),
    {
        for c in it: value.chars()
            invariant
                self.sep() == old(self).sep(),
                it.seq() == value@,
                self.st() == model::run_chars(
                    old(self).st(),
                    old(self).sep(),
                    value@.take(it.index() as int),
                ),
        {
            let ghost prefix = value@.take(it.index() as int);
            let ghost entry_st = self.st();
            match translit::translit_char(c) {
                Option::Some(unit) => {
                    if unit.is_empty() {
                        self.push_separator();
                    } else {
                        proof {
                            assert(translit::translit_of(c) == Option::Some(unit@));
                        }
                        for uc in inner: unit.chars()
                            invariant
                                self.sep() == old(self).sep(),
                                inner.seq() == unit@,
                                self.st() == model::steps_ascii(
                                    entry_st,
                                    old(self).sep(),
                                    unit@.take(inner.index() as int),
                                ),
                        {
                            proof {
                                assert(unit@.take(inner.index() + 1) =~= unit@.take(
                                    inner.index() as int,
                                ).push(uc));
                                model::lemma_steps_ascii_push(
                                    entry_st,
                                    old(self).sep(),
                                    unit@.take(inner.index() as int),
                                    uc,
                                );
                            }
                            self.push_char(uc);
                        }
                        proof {
                            assert(unit@.take(unit@.len() as int) =~= unit@);
                        }
                    }
                },
                Option::None => {
                    self.push_separator();
                },
            }
            proof {
                assert(value@.take(it.index() + 1) =~= prefix.push(c));
                model::lemma_run_chars_push(old(self).st(), old(self).sep(), prefix, c);
            }
        }
        proof {
            assert(value@.take(value@.len() as int) =~= value@);
        }
    }

    fn into_inner(self) -> (r: String)
        ensures
            r@ == model::trim_trailing(self.st().0, self.sep()),
    {
        let mut buffer = self.buffer;
        match textbuf::string_pop(&mut buffer) {
            Option::Some(c) => {
                if c != self.separator {
                    textbuf::string_push(&mut buffer, c);
                    proof {
                        assert(buffer@ =~= self.buffer@);
                    }
                }
            },
            Option::None => {},
        }
        buffer
    }
}

} // verus!
