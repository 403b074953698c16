//! Frequencies in hertz, written and read in kilohertz.

use vstd::prelude::*;
use crate::error::FrequencyError;
use crate::normalize::trim_units_text;
use crate::number::{lemma_decimal_digits, lemma_digits_concat, lemma_three_digits};
use crate::text::{is_ascii_alphabetic, is_whitespace, is_word, lemma_trim_of_trimmed, trim, trim_end_alphabetic};
use crate::number::{
    all_digits, char_digit_value, decimal_digits, digit_value, digits_to_u64, digits_value,
    lemma_pow10_monotonic, lemma_pow10_positive, pow10, push_three_digits, push_u64,
    three_digits,
};
use crate::text::{
    char_is_digit, chars_of, is_digit, push_chars, string_of, trim_chars,
    trim_end_alphabetic_chars,
};

verus! {

/// A frequency in hertz.
#[derive(Debug, Clone, Copy, PartialEq, Eq, Hash, PartialOrd, Ord)]
pub struct FrequencyHz(pub u64);

/// `hz` hertz in kilohertz: whole kilohertz alone where nothing is left over,
/// else with a point and the three digits of the hertz left over.
pub open spec fn khz_text(hz: nat) -> Seq<char> {
    if hz % 1000 == 0 {
        decimal_digits(hz / 1000)
    } else {
        decimal_digits(hz / 1000) + seq!['.'] + three_digits(hz % 1000)
    }
}

impl FrequencyHz {
    /// The frequency in kilohertz, as text.
    pub fn to_khz_string(&self) -> (out: String)
        ensures
            out@ == khz_text(self.0 as nat),
    {
        let khz = self.0 / 1000;
        let remainder = self.0 % 1000;
        let mut out: Vec<char> = Vec::new();
        push_u64(&mut out, khz);
        if remainder != 0 {
            out.push('.');
            push_three_digits(&mut out, remainder);
        }
        assert(out@ =~= khz_text(self.0 as nat));
        string_of(out.as_slice())
    }
}

/// The place of the first character at or after `from` that is no digit, or
/// the length of `s` where only digits follow.
pub open spec fn digits_end(s: Seq<char>, from: int) -> int
    decreases s.len() - from,
{
    if 0 <= from < s.len() && is_digit(s[from]) {
        digits_end(s, from + 1)
    } else {
        from
    }
}

/// A number as a decimal text writes it: the digits before and after the
/// point, the count of those before it, the power of ten, and the sign.
pub struct Decimal {
    pub negative: bool,
    pub digits: Seq<char>,
    pub point: int,
    pub exponent: int,
}

/// Whether `c` is a sign.
pub open spec fn is_sign(c: char) -> bool {
    c == '+' || c == '-'
}

/// Where the parts of a decimal text lie: the digits before the point from
/// `int_start` to `int_end`, those after it from `frac_start` to `frac_end`,
/// and the digits of the exponent from `exp_start` to `exp_end`.
pub struct Layout {
    pub int_start: int,
    pub int_end: int,
    pub frac_start: int,
    pub frac_end: int,
    pub has_exponent: bool,
    pub exp_negative: bool,
    pub exp_start: int,
    pub exp_end: int,
}

/// The parts of `s` read as a decimal text: an optional sign, digits, an
/// optional point and more digits, and then optionally `e` or `E`, an
/// optional sign and digits.
pub open spec fn layout(s: Seq<char>) -> Layout {
    let int_start: int = if s.len() > 0 && is_sign(s[0]) {
        1
    } else {
        0
    };
    let int_end = digits_end(s, int_start);
    let frac_start = if int_end < s.len() && s[int_end] == '.' {
        int_end + 1
    } else {
        int_end
    };
    let frac_end = digits_end(s, frac_start);
    let has_exponent = frac_end < s.len() && (s[frac_end] == 'e' || s[frac_end] == 'E');
    let exp_signed = has_exponent && frac_end + 1 < s.len() && is_sign(s[frac_end + 1]);
    let exp_start = if exp_signed {
        frac_end + 2
    } else if has_exponent {
        frac_end + 1
    } else {
        frac_end
    };
    Layout {
        int_start,
        int_end,
        frac_start,
        frac_end,
        has_exponent,
        exp_negative: exp_signed && s[frac_end + 1] == '-',
        exp_start,
        exp_end: digits_end(s, exp_start),
    }
}

/// The number that `s` writes, where it writes one: the text must hold at
/// least one digit before or after the point, at least one digit in an
/// exponent where it has one, and nothing after its last part.
pub open spec fn parse_decimal(s: Seq<char>) -> Option<Decimal> {
    let at = layout(s);
    let power = digits_value(s.subrange(at.exp_start, at.exp_end)) as int;
    if (at.int_end - at.int_start) + (at.frac_end - at.frac_start) == 0 || (at.has_exponent
        && at.exp_end == at.exp_start) || at.exp_end != s.len() {
        None
    } else {
        Some(
            Decimal {
                negative: s.len() > 0 && s[0] == '-',
                digits: s.subrange(at.int_start, at.int_end) + s.subrange(
                    at.frac_start,
                    at.frac_end,
                ),
                point: at.int_end - at.int_start,
                exponent: if at.exp_negative {
                    -power
                } else {
                    power
                },
            },
        )
    }
}

/// The whole number nearest to what `digits` write with the point after the
/// first `point` of them; a half counts upward. The point may lie before the
/// first digit or beyond the last.
pub open spec fn rounded(digits: Seq<char>, point: int) -> nat {
    if point >= digits.len() {
        digits_value(digits) * pow10((point - digits.len()) as nat)
    } else if point < 0 {
        0
    } else {
        digits_value(digits.take(point)) + if digit_value(digits[point]) >= 5 {
            1nat
        } else {
            0nat
        }
    }
}

/// `n`, or the largest frequency where `n` is beyond it.
pub open spec fn saturated(n: nat) -> u64 {
    if n <= u64::MAX {
        n as u64
    } else {
        u64::MAX
    }
}

/// The frequency in hertz that a text in kilohertz stands for. White space
/// around the text and the letters of a unit at its end do not count. What is
/// left must be a decimal number without a minus sign; it is rounded to the
/// nearest hertz, a half upward, and held to the largest frequency.
pub open spec fn hertz_of_khz_text(input: Seq<char>) -> Result<u64, FrequencyError> {
    let s = trim_units_text(input);
    if s.len() == 0 {
        Err(FrequencyError::Missing)
    } else {
        match parse_decimal(s) {
            None => Err(FrequencyError::Invalid),
            Some(number) => if number.negative {
                Err(FrequencyError::Invalid)
            } else {
                Ok(saturated(rounded(number.digits, number.point + number.exponent + 3)))
            },
        }
    }
}

fn scan_digits(s: &[char], from: usize) -> (end: usize)
    requires
        from <= s.len(),
    ensures
        end == digits_end(s@, from as int),
        from <= end <= s.len(),
        forall|k: int| from <= k < end ==> is_digit(#[trigger] s@[k]),
{
    let mut i: usize = from;
    while i < s.len() && char_is_digit(s[i])
        invariant
            from <= i <= s.len(),
            digits_end(s@, from as int) == digits_end(s@, i as int),
            forall|k: int| from <= k < i ==> is_digit(#[trigger] s@[k]),
        decreases s.len() - i,
    {
        i += 1;
    }
    i
}

/// Ten to the power twenty is beyond the largest frequency.
proof fn lemma_pow10_beyond(k: nat)
    requires
        k >= 20,
    ensures
        pow10(k) > u64::MAX,
{
    reveal_with_fuel(pow10, 21);
    assert(pow10(20) == 100_000_000_000_000_000_000);
    lemma_pow10_monotonic(20, k);
}

/// The largest power of ten that the exponent of a number is counted up to;
/// beyond it the number is zero or out of range either way.
pub const EXPONENT_CAP: u128 = 0x40_0000_0000_0000_0000;

fn capped_digits(s: &[char]) -> (v: u128)
    requires
        all_digits(s@),
    ensures
        v <= EXPONENT_CAP,
        v == if digits_value(s@) <= EXPONENT_CAP {
            digits_value(s@)
        } else {
            EXPONENT_CAP as nat
        },
{
    let mut acc: u128 = 0;
    let mut i: usize = 0;
    assert(s@.take(0) =~= Seq::<char>::empty());
    while i < s.len()
        invariant
            i <= s.len(),
            all_digits(s@),
            acc <= EXPONENT_CAP,
            acc == if digits_value(s@.take(i as int)) <= EXPONENT_CAP {
                digits_value(s@.take(i as int))
            } else {
                EXPONENT_CAP as nat
            },
        decreases s.len() - i,
    {
        let d = char_digit_value(s[i]) as u128;
        assert(s@.take(i + 1).drop_last() =~= s@.take(i as int));
        assert(s@.take(i + 1).last() == s@[i as int]);
        let next = acc * 10 + d;
        acc = if next <= EXPONENT_CAP {
            next
        } else {
            EXPONENT_CAP
        };
        i += 1;
    }
    assert(s@.take(s.len() as int) =~= s@);
    acc
}

fn scaled(v: u64, k: i128) -> (out: u64)
    requires
        k >= 0,
    ensures
        out == saturated(v as nat * pow10(k as nat)),
{
    if v == 0 {
        assert(0 * pow10(k as nat) == 0) by (nonlinear_arith);
        return 0;
    }
    let mut cur: u64 = v;
    let mut i: i128 = 0;
    assert(v as nat * pow10(0) == v) by (nonlinear_arith)
        requires
            pow10(0) == 1,
    ;
    while i < k
        invariant
            0 <= i <= k,
            v >= 1,
            cur == v as nat * pow10(i as nat),
        decreases k - i,
    {
        proof {
            let p = pow10(i as nat);
            assert(pow10((i + 1) as nat) == 10 * p);
            assert(v as nat * (10 * p) == 10 * (v as nat * p)) by (nonlinear_arith);
        }
        if cur > u64::MAX / 10 {
            proof {
                lemma_pow10_monotonic((i + 1) as nat, k as nat);
                let q = pow10(k as nat);
                let next = pow10((i + 1) as nat);
                assert(v as nat * q >= v as nat * next) by (nonlinear_arith)
                    requires
                        q >= next,
                ;
            }
            return u64::MAX;
        }
        cur = cur * 10;
        i += 1;
    }
    cur
}

/// A number as it was scanned: the exponent without its sign, and counted
/// up to the cap only.
struct Scanned {
    negative: bool,
    digits: Vec<char>,
    point: usize,
    power: u128,
    power_negative: bool,
}

/// Whether `power` stands for the exponent `true_power`: it is the exponent,
/// or both are at or beyond the cap.
spec fn stands_for(power: u128, true_power: nat) -> bool {
    power == true_power || (power == EXPONENT_CAP && true_power > EXPONENT_CAP)
}

/// The exponent of a number without its sign.
spec fn magnitude(exponent: int) -> nat {
    if exponent < 0 {
        (-exponent) as nat
    } else {
        exponent as nat
    }
}

/// Where the parts of a decimal text lie, as they were scanned.
struct Marks {
    int_start: usize,
    int_end: usize,
    frac_start: usize,
    frac_end: usize,
    has_exponent: bool,
    exp_negative: bool,
    exp_start: usize,
    exp_end: usize,
}

impl Marks {
    spec fn agrees(self, s: Seq<char>, at: Layout) -> bool {
        &&& self.int_start == at.int_start
        &&& self.int_end == at.int_end
        &&& self.frac_start == at.frac_start
        &&& self.frac_end == at.frac_end
        &&& self.has_exponent == at.has_exponent
        &&& self.exp_negative == at.exp_negative
        &&& self.exp_start == at.exp_start
        &&& self.exp_end == at.exp_end
        &&& self.int_start <= self.int_end <= self.frac_start <= self.frac_end <= self.exp_start
            <= self.exp_end <= s.len()
        &&& forall|k: int| self.int_start <= k < self.int_end ==> is_digit(#[trigger] s[k])
        &&& forall|k: int| self.frac_start <= k < self.frac_end ==> is_digit(#[trigger] s[k])
        &&& forall|k: int| self.exp_start <= k < self.exp_end ==> is_digit(#[trigger] s[k])
    }
}

fn scan_marks(s: &[char]) -> (marks: Marks)
    ensures
        marks.agrees(s@, layout(s@)),
{
    let n = s.len();
    let int_start: usize = if n > 0 && (s[0] == '+' || s[0] == '-') {
        1
    } else {
        0
    };
    let int_end = scan_digits(s, int_start);
    let frac_start: usize = if int_end < n && s[int_end] == '.' {
        int_end + 1
    } else {
        int_end
    };
    let frac_end = scan_digits(s, frac_start);
    let has_exponent = frac_end < n && (s[frac_end] == 'e' || s[frac_end] == 'E');
    let exp_signed = has_exponent && frac_end + 1 < n && (s[frac_end + 1] == '+' || s[frac_end
        + 1] == '-');
    let exp_negative = exp_signed && s[frac_end + 1] == '-';
    let exp_start: usize = if exp_signed {
        frac_end + 2
    } else if has_exponent {
        frac_end + 1
    } else {
        frac_end
    };
    let exp_end = scan_digits(s, exp_start);
    Marks {
        int_start,
        int_end,
        frac_start,
        frac_end,
        has_exponent,
        exp_negative,
        exp_start,
        exp_end,
    }
}

fn scan_number(s: &[char]) -> (r: Option<Scanned>)
    requires
        s@.len() > 0,
    ensures
        r is Some <==> parse_decimal(s@) is Some,
        r matches Some(scanned) ==> {
            let number = parse_decimal(s@)->0;
            &&& scanned.negative == number.negative
            &&& scanned.digits@ == number.digits
            &&& all_digits(scanned.digits@)
            &&& scanned.point == number.point
            &&& scanned.point <= scanned.digits@.len()
            &&& scanned.power <= EXPONENT_CAP
            &&& stands_for(scanned.power, magnitude(number.exponent))
            &&& number.exponent < 0 ==> scanned.power_negative
            &&& number.exponent > 0 ==> !scanned.power_negative
        },
{
    let marks = scan_marks(s);
    let ghost at = layout(s@);
    if (marks.int_end - marks.int_start) + (marks.frac_end - marks.frac_start) == 0 || (
    marks.has_exponent && marks.exp_end == marks.exp_start) || marks.exp_end != s.len() {
        return None;
    }
    let whole = vstd::slice::slice_subrange(s, marks.int_start, marks.int_end);
    let fraction = vstd::slice::slice_subrange(s, marks.frac_start, marks.frac_end);
    let exponent = vstd::slice::slice_subrange(s, marks.exp_start, marks.exp_end);
    let mut digits: Vec<char> = Vec::new();
    push_chars(&mut digits, whole);
    push_chars(&mut digits, fraction);
    assert(digits@ =~= whole@ + fraction@);
    assert forall|k: int| 0 <= k < digits@.len() implies is_digit(#[trigger] digits@[k]) by {
        if k < whole@.len() {
            assert(digits@[k] == s@[marks.int_start + k]);
        } else {
            assert(digits@[k] == s@[marks.frac_start + (k - whole@.len())]);
        }
    }
    assert forall|k: int| 0 <= k < exponent@.len() implies is_digit(#[trigger] exponent@[k]) by {
        assert(exponent@[k] == s@[marks.exp_start + k]);
    }
    let power = capped_digits(exponent);
    Some(
        Scanned {
            negative: s[0] == '-',
            digits,
            point: marks.int_end - marks.int_start,
            power,
            power_negative: marks.exp_negative,
        },
    )
}

fn round_to_hertz(
    digits: &[char],
    point: usize,
    power: u128,
    power_negative: bool,
    Ghost(true_power): Ghost<nat>,
) -> (out: u64)
    requires
        all_digits(digits@),
        point <= digits@.len(),
        stands_for(power, true_power),
        power <= EXPONENT_CAP,
    ensures
        out == saturated(
            rounded(
                digits@,
                point + 3 + if power_negative {
                    -(true_power as int)
                } else {
                    true_power as int
                },
            ),
        ),
{
    let len = digits.len();
    let place: i128 = if power_negative {
        point as i128 + 3 - power as i128
    } else {
        point as i128 + 3 + power as i128
    };
    let ghost true_place: int = point + 3 + if power_negative {
        -(true_power as int)
    } else {
        true_power as int
    };
    if place >= len as i128 {
        assert(true_place >= place);
        let v = match digits_to_u64(digits) {
            Some(v) => v,
            None => {
                proof {
                    lemma_pow10_positive((true_place - len) as nat);
                    let x = digits_value(digits@);
                    let y = pow10((true_place - len) as nat);
                    assert(x * y >= x) by (nonlinear_arith)
                        requires
                            y >= 1,
                    ;
                }
                return u64::MAX;
            },
        };
        let out = scaled(v, place - len as i128);
        proof {
            if true_place != place {
                let x = v as nat;
                let y = pow10((true_place - len) as nat);
                let z = pow10((place - len) as nat);
                lemma_pow10_beyond((true_place - len) as nat);
                lemma_pow10_beyond((place - len) as nat);
                if x == 0 {
                    assert(x * y == 0) by (nonlinear_arith)
                        requires
                            x == 0,
                    ;
                    assert(x * z == 0) by (nonlinear_arith)
                        requires
                            x == 0,
                    ;
                } else {
                    assert(x * y >= y) by (nonlinear_arith)
                        requires
                            x >= 1,
                    ;
                    assert(x * z >= z) by (nonlinear_arith)
                        requires
                            x >= 1,
                    ;
                }
            }
        }
        out
    } else if place < 0 {
        assert(true_place <= place);
        0
    } else {
        assert(true_place == place);
        let whole = vstd::slice::slice_subrange(digits, 0, place as usize);
        assert(whole@ =~= digits@.take(place as int));
        let up = char_digit_value(digits[place as usize]) >= 5;
        match digits_to_u64(whole) {
            Some(v) => {
                if up {
                    if v < u64::MAX {
                        v + 1
                    } else {
                        u64::MAX
                    }
                } else {
                    v
                }
            },
            None => u64::MAX,
        }
    }
}

impl FrequencyHz {
    /// The frequency that `input`, a text in kilohertz, stands for.
    pub fn from_khz_str(input: &str) -> (r: Result<Self, FrequencyError>)
        ensures
            match r {
                Ok(freq) => hertz_of_khz_text(input@) == Ok::<u64, FrequencyError>(freq.0),
                Err(e) => hertz_of_khz_text(input@) == Err::<u64, FrequencyError>(e),
            },
    {
        let cs = chars_of(input);
        let s = trim_end_alphabetic_chars(trim_chars(cs.as_slice()));
        if s.len() == 0 {
            return Err(FrequencyError::Missing);
        }
        match scan_number(s) {
            None => Err(FrequencyError::Invalid),
            Some(scanned) => {
                if scanned.negative {
                    return Err(FrequencyError::Invalid);
                }
                let ghost number = parse_decimal(s@)->0;
                let hz = round_to_hertz(
                    scanned.digits.as_slice(),
                    scanned.point,
                    scanned.power,
                    scanned.power_negative,
                    Ghost(magnitude(number.exponent)),
                );
                Ok(FrequencyHz(hz))
            },
        }
    }
}

impl std::str::FromStr for FrequencyHz {
    type Err = FrequencyError;

    /// The frequency that `s`, a text in kilohertz, stands for.
    fn from_str(s: &str) -> (r: Result<Self, FrequencyError>)
        ensures
            match r {
                Ok(freq) => hertz_of_khz_text(s@) == Ok::<u64, FrequencyError>(freq.0),
                Err(e) => hertz_of_khz_text(s@) == Err::<u64, FrequencyError>(e),
            },
    {
        FrequencyHz::from_khz_str(s)
    }
}

/// A run of digits ends where the first character that is no digit stands.
proof fn lemma_digits_run(s: Seq<char>, from: int, to: int)
    requires
        0 <= from <= to <= s.len(),
        forall|k: int| from <= k < to ==> is_digit(#[trigger] s[k]),
        to == s.len() || !is_digit(s[to]),
    ensures
        digits_end(s, from) == to,
    decreases to - from,
{
    if from < to {
        lemma_digits_run(s, from + 1, to);
    }
}

/// A frequency written in kilohertz is a word of digits with at most one
/// point, and it reads back as the same frequency.
pub proof fn lemma_khz_round_trip(hz: u64)
    ensures
        is_word(khz_text(hz as nat)),
        hertz_of_khz_text(khz_text(hz as nat)) == Ok::<u64, FrequencyError>(hz),
{
    let khz = (hz / 1000) as nat;
    let rest = (hz % 1000) as nat;
    let whole = decimal_digits(khz);
    let s = khz_text(hz as nat);
    lemma_decimal_digits(khz);
    lemma_three_digits(rest);
    let part = three_digits(rest);
    assert(is_digit(whole[0]));
    assert(is_digit(whole[whole.len() - 1]));
    if rest == 0 {
        assert(s == whole);
        assert forall|i: int| 0 <= i < s.len() implies !is_whitespace(#[trigger] s[i]) by {
            assert(is_digit(s[i]));
        }
        lemma_trim_of_trimmed(s);
        assert(trim_end_alphabetic(s) == s);
        lemma_digits_run(s, 0, s.len() as int);
        lemma_digits_run(s, s.len() as int, s.len() as int);
        let at = layout(s);
        assert(at.int_start == 0 && at.int_end == s.len());
        assert(at.frac_start == s.len() && at.frac_end == s.len());
        assert(!at.has_exponent && at.exp_start == s.len() && at.exp_end == s.len());
        assert(s.subrange(0, s.len() as int) + s.subrange(s.len() as int, s.len() as int) =~= s);
        assert(s.subrange(s.len() as int, s.len() as int) =~= Seq::<char>::empty());
        let number = parse_decimal(s)->0;
        assert(number.digits == s);
        assert(number.point == s.len());
        assert(number.exponent == 0);
        reveal_with_fuel(pow10, 4);
        assert(pow10(3) == 1000);
        assert(rounded(s, (s.len() + 3) as int) == khz * 1000);
    } else {
        let point = whole.len() as int;
        assert(s =~= whole + seq!['.'] + part);
        assert(s.len() == point + 4);
        assert forall|i: int| 0 <= i < s.len() implies !is_whitespace(#[trigger] s[i])
            && !is_ascii_alphabetic(s[i]) && (i != point ==> is_digit(s[i])) by {
            if i < point {
                assert(s[i] == whole[i]);
                assert(is_digit(whole[i]));
            } else if i > point {
                assert(s[i] == part[i - point - 1]);
                assert(is_digit(part[i - point - 1]));
            } else {
                assert(s[i] == '.');
            }
        }
        assert(is_digit(s[0]));
        assert(is_digit(s[s.len() - 1]));
        lemma_trim_of_trimmed(s);
        assert(trim_end_alphabetic(s) == s);
        assert(s[point] == '.');
        lemma_digits_run(s, 0, point);
        lemma_digits_run(s, point + 1, s.len() as int);
        lemma_digits_run(s, s.len() as int, s.len() as int);
        let at = layout(s);
        assert(at.int_start == 0 && at.int_end == point);
        assert(at.frac_start == point + 1 && at.frac_end == s.len());
        assert(!at.has_exponent && at.exp_start == s.len() && at.exp_end == s.len());
        assert(s.subrange(0, point) =~= whole);
        assert(s.subrange(point + 1, s.len() as int) =~= part);
        assert(s.subrange(s.len() as int, s.len() as int) =~= Seq::<char>::empty());
        let number = parse_decimal(s)->0;
        assert(number.digits == whole + part);
        assert(number.point == point);
        assert(number.exponent == 0);
        lemma_digits_concat(whole, part);
        reveal_with_fuel(pow10, 4);
        assert(pow10(3) == 1000);
        assert(pow10(0) == 1);
        assert(digits_value(whole + part) == khz * 1000 + rest);
        assert((khz * 1000 + rest) * 1 == khz * 1000 + rest) by (nonlinear_arith);
        assert(rounded(whole + part, point + 3) == khz * 1000 + rest);
    }
}

} // verus!
