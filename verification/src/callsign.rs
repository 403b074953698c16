//! Callsigns: station identifiers, kept in upper case.

use vstd::prelude::*;
use crate::error::CallsignError;
use crate::normalize::{ascii_uppercase, is_ascii_text, to_uppercase, unicode_uppercase};
use crate::text::{
    ascii_upper, chars_of, eq_ignore_ascii_case, is_ascii_alphabetic, is_digit, is_trimmed,
    is_whitespace, lemma_trim_is_trimmed, lemma_trim_of_trimmed, string_of, trim, trim_chars,
    trim_end, trim_start,
};
use crate::text::{char_is_ascii_alphabetic, char_is_digit};

verus! {

/// A station identifier. It is never empty where it came from one of the
/// constructors of this module.
#[derive(Debug, PartialEq, Eq, Hash)]
pub struct Callsign(String);

impl View for Callsign {
    type V = Seq<char>;

    closed spec fn view(&self) -> Seq<char> {
        self.0@
    }
}

impl Clone for Callsign {
    fn clone(&self) -> (out: Self)
        ensures
            out@ == self@,
    {
        Callsign(self.0.clone())
    }
}

/// Some character of `s` is a decimal digit.
pub open spec fn has_digit(s: Seq<char>) -> bool {
    exists|i: int| 0 <= i < s.len() && is_digit(#[trigger] s[i])
}

/// Every character of `s` is an ASCII letter, a digit or `/`.
pub open spec fn all_callsign_chars(s: Seq<char>) -> bool {
    forall|i: int|
        0 <= i < s.len() ==> (is_ascii_alphabetic(#[trigger] s[i]) || is_digit(s[i]) || s[i] == '/')
}

/// What validation says of `value`: the empty text is refused always, and the
/// strict rules also refuse a text without a digit or with a character other
/// than ASCII letters, digits and `/`.
pub open spec fn validation(value: Seq<char>, strict: bool) -> Result<(), CallsignError> {
    if value.len() == 0 {
        Err(CallsignError::Empty)
    } else if strict && !(has_digit(value) && all_callsign_chars(value)) {
        Err(CallsignError::InvalidFormat)
    } else {
        Ok(())
    }
}

/// The callsign that `input` stands for: trimmed, validated, in upper case.
pub open spec fn parsed_callsign(input: Seq<char>, strict: bool) -> Result<Seq<char>, CallsignError> {
    match validation(trim(input), strict) {
        Ok(_) => Ok(unicode_uppercase(trim(input))),
        Err(e) => Err(e),
    }
}

/// A callsign that reading gives back unchanged: not empty, trimmed, and its
/// own upper-case form.
pub open spec fn is_canonical(call: Seq<char>) -> bool {
    parsed_callsign(call, false) == Ok::<Seq<char>, CallsignError>(call)
}

/// The capitals of a trimmed text are a trimmed text of the same length.
proof fn lemma_capitals_trimmed(t: Seq<char>)
    requires
        is_trimmed(t),
    ensures
        ascii_uppercase(t).len() == t.len(),
        is_trimmed(ascii_uppercase(t)),
        trim(ascii_uppercase(t)) == ascii_uppercase(t),
{
    let u = ascii_uppercase(t);
    if t.len() > 0 {
        assert(u[0] == ascii_upper(t[0]));
        assert(u[u.len() - 1] == ascii_upper(t[t.len() - 1]));
    }
    lemma_trim_of_trimmed(u);
}

impl Callsign {
    /// The callsign `raw` in upper case; the empty text is refused.
    pub fn new(raw: String) -> (r: Result<Self, CallsignError>)
        ensures
            match r {
                Ok(call) => raw@.len() > 0 && call@ == unicode_uppercase(raw@) && (is_ascii_text(
                    raw@,
                ) ==> call@ == ascii_uppercase(raw@)),
                Err(e) => raw@.len() == 0 && e == CallsignError::Empty,
            },
    {
        match Callsign::validate(raw.as_str(), false) {
            Ok(_) => Ok(Callsign(to_uppercase(raw.as_str()))),
            Err(e) => Err(e),
        }
    }

    /// The callsign in `input`, by the loose rules: any text that is not empty
    /// once trimmed. A callsign read from ASCII text is canonical.
    pub fn parse_loose(input: &str) -> (r: Result<Self, CallsignError>)
        ensures
            match r {
                Ok(call) => parsed_callsign(input@, false) == Ok::<Seq<char>, CallsignError>(call@)
                    && (is_ascii_text(input@) ==> call@ == ascii_uppercase(trim(input@))
                    && is_canonical(call@)),
                Err(e) => parsed_callsign(input@, false) == Err::<Seq<char>, CallsignError>(e),
            },
    {
        Callsign::parse(input, false)
    }

    /// The callsign in `input`, by the strict rules: at least one digit, and
    /// ASCII letters, digits and `/` only.
    pub fn parse_strict(input: &str) -> (r: Result<Self, CallsignError>)
        ensures
            match r {
                Ok(call) => parsed_callsign(input@, true) == Ok::<Seq<char>, CallsignError>(call@)
                    && (is_ascii_text(input@) ==> call@ == ascii_uppercase(trim(input@))
                    && is_canonical(call@)),
                Err(e) => parsed_callsign(input@, true) == Err::<Seq<char>, CallsignError>(e),
            },
    {
        Callsign::parse(input, true)
    }

    fn parse(input: &str, strict: bool) -> (r: Result<Self, CallsignError>)
        ensures
            match r {
                Ok(call) => parsed_callsign(input@, strict) == Ok::<Seq<char>, CallsignError>(call@)
                    && (is_ascii_text(input@) ==> call@ == ascii_uppercase(trim(input@))
                    && is_canonical(call@)),
                Err(e) => parsed_callsign(input@, strict) == Err::<Seq<char>, CallsignError>(e),
            },
    {
        let cs = chars_of(input);
        let trimmed = string_of(trim_chars(cs.as_slice()));
        proof {
            crate::text::lemma_trim_is_part(input@);
            lemma_trim_is_trimmed(input@);
            lemma_capitals_trimmed(trim(input@));
        }
        match Callsign::validate(trimmed.as_str(), strict) {
            Ok(_) => Ok(Callsign(to_uppercase(trimmed.as_str()))),
            Err(e) => Err(e),
        }
    }

    /// Whether `value` can be a callsign, by the loose or by the strict rules.
    pub fn validate(value: &str, strict: bool) -> (r: Result<(), CallsignError>)
        ensures
            r == validation(value@, strict),
    {
        let cs = chars_of(value);
        if cs.len() == 0 {
            return Err(CallsignError::Empty);
        }
        if strict {
            let mut any_digit = false;
            let mut all_valid = true;
            let mut i: usize = 0;
            while i < cs.len()
                invariant
                    i <= cs.len(),
                    cs@ == value@,
                    any_digit == has_digit(cs@.take(i as int)),
                    all_valid == all_callsign_chars(cs@.take(i as int)),
                decreases cs.len() - i,
            {
                let c = cs[i];
                let ghost before = cs@.take(i as int);
                let ghost after = cs@.take(i + 1);
                assert(after.drop_last() =~= before);
                assert(after.last() == c);
                proof {
                    if has_digit(before) {
                        let k = choose|k: int| 0 <= k < before.len() && is_digit(#[trigger] before[k]);
                        assert(after[k] == before[k]);
                    }
                    if has_digit(after) && !is_digit(c) {
                        let k = choose|k: int| 0 <= k < after.len() && is_digit(#[trigger] after[k]);
                        assert(before[k] == after[k]);
                    }
                    if all_callsign_chars(after) {
                        assert forall|k: int| 0 <= k < before.len() implies (is_ascii_alphabetic(
                            #[trigger] before[k],
                        ) || is_digit(before[k]) || before[k] == '/') by {
                            assert(after[k] == before[k]);
                        }
                    }
                    if all_callsign_chars(before) && (is_ascii_alphabetic(c) || is_digit(c) || c
                        == '/') {
                        assert forall|k: int| 0 <= k < after.len() implies (is_ascii_alphabetic(
                            #[trigger] after[k],
                        ) || is_digit(after[k]) || after[k] == '/') by {
                            if k < before.len() {
                                assert(after[k] == before[k]);
                            }
                        }
                    }
                    if !(is_ascii_alphabetic(c) || is_digit(c) || c == '/') {
                        assert(after[i as int] == c);
                    }
                }
                if char_is_digit(c) {
                    any_digit = true;
                    assert(is_digit(after[i as int]));
                }
                if !(char_is_ascii_alphabetic(c) || char_is_digit(c) || c == '/') {
                    all_valid = false;
                }
                i += 1;
            }
            assert(cs@.take(cs.len() as int) =~= cs@);
            if !any_digit || !all_valid {
                return Err(CallsignError::InvalidFormat);
            }
        }
        Ok(())
    }

    /// Whether reading the callsign gives it back unchanged.
    pub fn is_canonical(&self) -> (canonical: bool)
        ensures
            canonical == is_canonical(self@),
    {
        let cs = chars_of(self.0.as_str());
        let trimmed = trim_chars(cs.as_slice());
        if trimmed.len() == 0 {
            return false;
        }
        let text = string_of(trimmed);
        let upper = to_uppercase(text.as_str());
        upper == self.0
    }

    /// The callsign as text.
    pub fn as_str(&self) -> (out: &str)
        ensures
            out@ == self@,
    {
        self.0.as_str()
    }
}

proof fn lemma_trim_start_ignores_case(a: Seq<char>, b: Seq<char>)
    requires
        eq_ignore_ascii_case(a, b),
    ensures
        eq_ignore_ascii_case(trim_start(a), trim_start(b)),
    decreases a.len(),
{
    if a.len() > 0 {
        assert(ascii_upper(a[0]) == ascii_upper(b[0]));
        if is_whitespace(a[0]) {
            assert(is_whitespace(b[0]));
            let x = a.skip(1);
            let y = b.skip(1);
            assert forall|i: int| 0 <= i < x.len() implies ascii_upper(#[trigger] x[i]) == ascii_upper(
                y[i],
            ) by {
                assert(ascii_upper(a[i + 1]) == ascii_upper(b[i + 1]));
            }
            lemma_trim_start_ignores_case(x, y);
        } else {
            assert(!is_whitespace(b[0]));
        }
    }
}

proof fn lemma_trim_end_ignores_case(a: Seq<char>, b: Seq<char>)
    requires
        eq_ignore_ascii_case(a, b),
    ensures
        eq_ignore_ascii_case(trim_end(a), trim_end(b)),
    decreases a.len(),
{
    if a.len() > 0 {
        assert(ascii_upper(a[a.len() - 1]) == ascii_upper(b[a.len() - 1]));
        if is_whitespace(a.last()) {
            assert(is_whitespace(b.last()));
            let x = a.drop_last();
            let y = b.drop_last();
            assert forall|i: int| 0 <= i < x.len() implies ascii_upper(#[trigger] x[i]) == ascii_upper(
                y[i],
            ) by {
                assert(ascii_upper(a[i]) == ascii_upper(b[i]));
            }
            lemma_trim_end_ignores_case(x, y);
        } else {
            assert(!is_whitespace(b.last()));
        }
    }
}

/// The case of ASCII letters does not count: two texts that differ in it
/// alone are trimmed to texts with the same capitals, which is the callsign
/// that either of them stands for where both are ASCII.
pub proof fn lemma_case_does_not_count(a: Seq<char>, b: Seq<char>)
    requires
        eq_ignore_ascii_case(a, b),
    ensures
        ascii_uppercase(trim(a)) == ascii_uppercase(trim(b)),
        validation(trim(a), false) == validation(trim(b), false),
{
    lemma_trim_start_ignores_case(a, b);
    lemma_trim_end_ignores_case(trim_start(a), trim_start(b));
    let x = trim(a);
    let y = trim(b);
    assert forall|i: int| 0 <= i < x.len() implies ascii_uppercase(x)[i] == ascii_uppercase(y)[i] by {
        assert(ascii_upper(x[i]) == ascii_upper(y[i]));
    }
    assert(ascii_uppercase(x) =~= ascii_uppercase(y));
}

} // verus!
