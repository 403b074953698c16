//! Normal forms of the free-text fields.

use vstd::prelude::*;
use crate::text::{
    ascii_upper, chars_of, join, join_chars, split_whitespace_chars, string_of, tokens, trim,
    trim_chars, trim_end_alphabetic, trim_end_alphabetic_chars,
};

verus! {

/// The upper-case form that Unicode gives a text.
pub uninterp spec fn unicode_uppercase(s: Seq<char>) -> Seq<char>;

/// Every character of `s` is ASCII.
pub open spec fn is_ascii_text(s: Seq<char>) -> bool {
    forall|i: int| 0 <= i < s.len() ==> (#[trigger] s[i] as u32) < 128
}

/// `s` with each ASCII lower-case letter replaced by its capital.
pub open spec fn ascii_uppercase(s: Seq<char>) -> Seq<char> {
    s.map_values(|c: char| ascii_upper(c))
}

/// `str::to_uppercase`: the Unicode upper-case form of `s`. On a text of ASCII
/// characters that form is the text with `a` to `z` replaced by `A` to `Z`,
/// which is its own upper-case form.
#[verifier::external_body]
pub(crate) fn to_uppercase(s: &str) -> (out: String)
    ensures
        out@ == unicode_uppercase(s@),
        is_ascii_text(s@) ==> out@ == ascii_uppercase(s@),
        is_ascii_text(s@) ==> unicode_uppercase(out@) == out@,
{
    s.to_uppercase()
}

/// A comment in normal form: its words with one space between neighbours.
/// Every run of white space, line feeds among it, becomes one space, and
/// white space at either end is dropped.
pub open spec fn comment_text(input: Seq<char>) -> Seq<char> {
    join(tokens(input), seq![' '])
}

/// A callsign in normal form: trimmed and in upper case.
pub open spec fn callsign_text(input: Seq<char>) -> Seq<char> {
    unicode_uppercase(trim(input))
}

/// A frequency text without white space around it and without its unit.
pub open spec fn trim_units_text(input: Seq<char>) -> Seq<char> {
    trim_end_alphabetic(trim(input))
}

/// The comment `input` in normal form.
pub fn comment_chars(input: &[char]) -> (out: Vec<char>)
    ensures
        out@ == comment_text(input@),
{
    let words = split_whitespace_chars(input);
    let space: Vec<char> = vec![' '];
    assert(space@ =~= seq![' ']);
    join_chars(&words, space.as_slice())
}

/// The comment `input` in normal form.
pub fn comment(input: &str) -> (out: String)
    ensures
        out@ == comment_text(input@),
{
    let cs = chars_of(input);
    let words = comment_chars(cs.as_slice());
    string_of(words.as_slice())
}

/// The callsign `input` in normal form.
pub fn callsign(input: &str) -> (out: String)
    ensures
        out@ == callsign_text(input@),
        is_ascii_text(input@) ==> out@ == ascii_uppercase(trim(input@)),
{
    let cs = chars_of(input);
    let trimmed = string_of(trim_chars(cs.as_slice()));
    proof {
        crate::text::lemma_trim_is_part(input@);
    }
    to_uppercase(trimmed.as_str())
}

/// The frequency text `input` without white space around it and without the
/// letters of a unit at its end.
pub fn trim_units(input: &str) -> (out: String)
    ensures
        out@ == trim_units_text(input@),
{
    let cs = chars_of(input);
    string_of(trim_end_alphabetic_chars(trim_chars(cs.as_slice())))
}

} // verus!
