//! Integers as text: decimal and hexadecimal digits, read and written.

use vstd::prelude::*;
use crate::text::{push_chars, is_digit, char_is_digit};

verus! {

/// The number that the decimal digit `c` stands for.
pub open spec fn digit_value(c: char) -> nat {
    if is_digit(c) {
        (c as u32 - 48) as nat
    } else {
        0
    }
}

/// The decimal digit for `v`, which is below ten.
pub open spec fn digit_char(v: nat) -> char {
    ((48 + v) as u8) as char
}

/// The number that the decimal digit `c` stands for.
pub fn char_digit_value(c: char) -> (v: u8)
    requires
        is_digit(c),
    ensures
        v == digit_value(c),
        v < 10,
{
    (c as u32 - 48) as u8
}

/// The decimal digit for `v`.
pub fn digit_char_of(v: u8) -> (c: char)
    requires
        v < 10,
    ensures
        c == digit_char(v as nat),
        is_digit(c),
        digit_value(c) == v,
{
    (48 + v) as char
}

/// Every character of `s` is a decimal digit.
pub open spec fn all_digits(s: Seq<char>) -> bool {
    forall|i: int| 0 <= i < s.len() ==> is_digit(#[trigger] s[i])
}

/// The number that the digits `s` write in base ten.
pub open spec fn digits_value(s: Seq<char>) -> nat
    decreases s.len(),
{
    if s.len() == 0 {
        0
    } else {
        digits_value(s.drop_last()) * 10 + digit_value(s.last())
    }
}

/// A prefix of a digit string writes no more than the whole string.
pub proof fn lemma_digits_prefix_le(s: Seq<char>, k: int)
    requires
        0 <= k <= s.len(),
    ensures
        digits_value(s.take(k)) <= digits_value(s),
    decreases s.len(),
{
    if k == s.len() {
        assert(s.take(k) =~= s);
    } else {
        lemma_digits_prefix_le(s.drop_last(), k);
        assert(s.drop_last().take(k) =~= s.take(k));
    }
}

/// Writing `b` after `a` multiplies what `a` writes by ten for each digit of `b`.
pub proof fn lemma_digits_concat(a: Seq<char>, b: Seq<char>)
    ensures
        digits_value(a + b) == digits_value(a) * pow10(b.len()) + digits_value(b),
    decreases b.len(),
{
    if b.len() == 0 {
        assert(a + b =~= a);
        assert(pow10(0) == 1);
        assert(digits_value(b) == 0);
        assert(digits_value(a) * 1 == digits_value(a)) by (nonlinear_arith);
    } else {
        lemma_digits_concat(a, b.drop_last());
        assert((a + b).drop_last() =~= a + b.drop_last());
        assert((a + b).last() == b.last());
        let x = digits_value(a);
        let y = digits_value(b.drop_last());
        let d = digit_value(b.last());
        let p = pow10((b.len() - 1) as nat);
        assert(pow10(b.len()) == 10 * p);
        assert(digits_value(a + b) == (x * p + y) * 10 + d);
        assert(digits_value(b) == y * 10 + d);
        assert((x * p + y) * 10 == x * (10 * p) + y * 10) by (nonlinear_arith);
    }
}

/// Ten to the power `n`.
pub open spec fn pow10(n: nat) -> nat
    decreases n,
{
    if n == 0 {
        1
    } else {
        10 * pow10((n - 1) as nat)
    }
}

/// A power of ten is at least one.
pub proof fn lemma_pow10_positive(n: nat)
    ensures
        pow10(n) >= 1,
    decreases n,
{
    if n > 0 {
        lemma_pow10_positive((n - 1) as nat);
    }
}

/// A higher power of ten is no smaller.
pub proof fn lemma_pow10_monotonic(a: nat, b: nat)
    requires
        a <= b,
    ensures
        pow10(a) <= pow10(b),
    decreases b,
{
    if a < b {
        lemma_pow10_monotonic(a, (b - 1) as nat);
        lemma_pow10_positive((b - 1) as nat);
    }
}

/// The number that `s` writes, where `s` holds digits only and the number
/// fits in 64 bits.
pub fn digits_to_u64(s: &[char]) -> (r: Option<u64>)
    ensures
        r is Some <==> all_digits(s@) && digits_value(s@) <= u64::MAX,
        r matches Some(v) ==> v == digits_value(s@),
{
    let mut acc: u64 = 0;
    let mut i: usize = 0;
    assert(s@.take(0) =~= Seq::<char>::empty());
    while i < s.len()
        invariant
            i <= s.len(),
            all_digits(s@.take(i as int)),
            acc == digits_value(s@.take(i as int)),
        decreases s.len() - i,
    {
        let c = s[i];
        if !char_is_digit(c) {
            return None;
        }
        let d = char_digit_value(c) as u64;
        assert(s@.take(i + 1).drop_last() =~= s@.take(i as int));
        assert(s@.take(i + 1).last() == c);
        if acc > (u64::MAX - d) / 10 {
            proof {
                lemma_digits_prefix_le(s@, i + 1);
            }
            return None;
        }
        acc = acc * 10 + d;
        assert forall|k: int| 0 <= k < i + 1 implies is_digit(#[trigger] s@.take(i + 1)[k]) by {
            if k < i {
                assert(s@.take(i as int)[k] == s@[k]);
            }
        }
        i += 1;
    }
    assert(s@.take(s.len() as int) =~= s@);
    Some(acc)
}

/// Decimal text without a sign, as it is read: an optional `+`, then at
/// least one digit, and a value of at most `max`.
pub open spec fn parse_unsigned(s: Seq<char>, max: nat) -> Option<nat> {
    let body = if s.len() > 0 && s[0] == '+' {
        s.skip(1)
    } else {
        s
    };
    if body.len() > 0 && all_digits(body) && digits_value(body) <= max {
        Some(digits_value(body))
    } else {
        None
    }
}

/// Decimal text with a sign, as it is read: an optional `+` or `-`, then at
/// least one digit, and a value from `min` to `max`.
pub open spec fn parse_signed(s: Seq<char>, min: int, max: int) -> Option<int> {
    let signed = s.len() > 0 && (s[0] == '+' || s[0] == '-');
    let body = if signed {
        s.skip(1)
    } else {
        s
    };
    let value = if s.len() > 0 && s[0] == '-' {
        -(digits_value(body) as int)
    } else {
        digits_value(body) as int
    };
    if body.len() > 0 && all_digits(body) && min <= value <= max {
        Some(value)
    } else {
        None
    }
}

/// The number that `s` writes without a sign, where it fits in 64 bits.
pub fn parse_u64_chars(s: &[char]) -> (r: Option<u64>)
    ensures
        r is Some <==> parse_unsigned(s@, u64::MAX as nat) is Some,
        r matches Some(v) ==> parse_unsigned(s@, u64::MAX as nat) == Some(v as nat),
{
    let n = s.len();
    let start: usize = if n > 0 && s[0] == '+' {
        1
    } else {
        0
    };
    if start == n {
        return None;
    }
    let body = vstd::slice::slice_subrange(s, start, n);
    assert(body@ =~= s@.skip(start as int));
    assert(s@.skip(0) =~= s@);
    digits_to_u64(body)
}

/// The number that `s` writes without a sign, where it fits in 32 bits.
pub fn parse_u32_chars(s: &[char]) -> (r: Option<u32>)
    ensures
        r is Some <==> parse_unsigned(s@, u32::MAX as nat) is Some,
        r matches Some(v) ==> parse_unsigned(s@, u32::MAX as nat) == Some(v as nat),
{
    match parse_u64_chars(s) {
        Some(v) => {
            if v <= 0xffff_ffff {
                Some(v as u32)
            } else {
                None
            }
        },
        None => None,
    }
}

/// The number that `s` writes with a sign, where it fits in 64 bits.
pub fn parse_i64_chars(s: &[char]) -> (r: Option<i64>)
    ensures
        r is Some <==> parse_signed(s@, i64::MIN as int, i64::MAX as int) is Some,
        r matches Some(v) ==> parse_signed(s@, i64::MIN as int, i64::MAX as int) == Some(v as int),
{
    let n = s.len();
    let negative = n > 0 && s[0] == '-';
    let start: usize = if n > 0 && (s[0] == '+' || s[0] == '-') {
        1
    } else {
        0
    };
    if start == n {
        return None;
    }
    let body = vstd::slice::slice_subrange(s, start, n);
    assert(body@ =~= s@.skip(start as int));
    assert(s@.skip(0) =~= s@);
    match digits_to_u64(body) {
        Some(m) => {
            if negative {
                if m <= 0x7fff_ffff_ffff_ffff {
                    Some(-(m as i64))
                } else if m == 0x8000_0000_0000_0000 {
                    Some(i64::MIN)
                } else {
                    None
                }
            } else if m <= 0x7fff_ffff_ffff_ffff {
                Some(m as i64)
            } else {
                None
            }
        },
        None => None,
    }
}

/// `n` in decimal digits, without leading zeros.
pub open spec fn decimal_digits(n: nat) -> Seq<char>
    decreases n,
{
    if n < 10 {
        seq![digit_char(n)]
    } else {
        decimal_digits(n / 10).push(digit_char(n % 10))
    }
}

/// `n` in decimal, with `-` in front where it is negative.
pub open spec fn signed_decimal(n: int) -> Seq<char> {
    if n < 0 {
        seq!['-'] + decimal_digits((-n) as nat)
    } else {
        decimal_digits(n as nat)
    }
}

/// What is written for `n` is digits only, and reads back as `n`.
pub proof fn lemma_decimal_digits(n: nat)
    ensures
        decimal_digits(n).len() >= 1,
        all_digits(decimal_digits(n)),
        digits_value(decimal_digits(n)) == n,
    decreases n,
{
    if n < 10 {
        let s = decimal_digits(n);
        assert(s.drop_last() =~= Seq::<char>::empty());
        assert(digits_value(s.drop_last()) == 0);
        assert(s.last() == digit_char(n));
    } else {
        lemma_decimal_digits(n / 10);
        let s = decimal_digits(n);
        assert(s.drop_last() =~= decimal_digits(n / 10));
        assert(s.last() == digit_char(n % 10));
        assert forall|i: int| 0 <= i < s.len() implies is_digit(#[trigger] s[i]) by {
            if i < s.len() - 1 {
                assert(s[i] == decimal_digits(n / 10)[i]);
            }
        }
    }
}

/// Reading what was written for an unsigned number gives the number.
pub proof fn lemma_parse_unsigned_decimal(n: nat, max: nat)
    requires
        n <= max,
    ensures
        parse_unsigned(decimal_digits(n), max) == Some(n),
{
    lemma_decimal_digits(n);
    assert(is_digit(decimal_digits(n)[0]));
}

/// Reading what was written for a signed number gives the number.
pub proof fn lemma_parse_signed_decimal(n: int, min: int, max: int)
    requires
        min <= n <= max,
    ensures
        parse_signed(signed_decimal(n), min, max) == Some(n),
{
    if n < 0 {
        let d = decimal_digits((-n) as nat);
        lemma_decimal_digits((-n) as nat);
        let s = signed_decimal(n);
        assert(s[0] == '-');
        assert(s.skip(1) =~= d);
    } else {
        lemma_decimal_digits(n as nat);
        assert(is_digit(decimal_digits(n as nat)[0]));
    }
}

/// Appends `n` in decimal.
pub fn push_u64(out: &mut Vec<char>, n: u64)
    ensures
        final(out)@ == old(out)@ + decimal_digits(n as nat),
{
    let mut digits: Vec<char> = Vec::new();
    let mut m: u64 = n;
    while m >= 10
        invariant
            decimal_digits(n as nat) == decimal_digits(m as nat) + digits@,
        decreases m,
    {
        let d = digit_char_of((m % 10) as u8);
        let ghost before = digits@;
        digits.insert(0, d);
        assert(decimal_digits(m as nat) == decimal_digits((m / 10) as nat).push(d));
        assert(decimal_digits((m / 10) as nat).push(d) + before =~= decimal_digits(
            (m / 10) as nat,
        ) + digits@);
        m = m / 10;
    }
    let d = digit_char_of(m as u8);
    let ghost before = digits@;
    digits.insert(0, d);
    assert(seq![d] + before =~= digits@);
    push_chars(out, digits.as_slice());
}

/// Appends `n` in decimal, with `-` in front where it is negative.
pub fn push_i64(out: &mut Vec<char>, n: i64)
    ensures
        final(out)@ == old(out)@ + signed_decimal(n as int),
{
    if n < 0 {
        let m: u64 = ((-(n + 1)) as u64) + 1;
        out.push('-');
        push_u64(out, m);
        assert(out@ =~= old(out)@ + signed_decimal(n as int));
    } else {
        push_u64(out, n as u64);
    }
}

/// `v`, which is below a thousand, in three decimal digits.
pub open spec fn three_digits(v: nat) -> Seq<char> {
    seq![digit_char(v / 100), digit_char((v / 10) % 10), digit_char(v % 10)]
}

/// Three digits written for a number below a thousand write that number.
pub proof fn lemma_three_digits(v: nat)
    requires
        v < 1000,
    ensures
        all_digits(three_digits(v)),
        digits_value(three_digits(v)) == v,
        three_digits(v).len() == 3,
{
    let s = three_digits(v);
    let s2 = s.drop_last();
    let s1 = s2.drop_last();
    assert(s1.drop_last() =~= Seq::<char>::empty());
    assert(digits_value(s1.drop_last()) == 0);
    assert(s1.last() == digit_char(v / 100));
    assert(s2.last() == digit_char((v / 10) % 10));
    assert(s.last() == digit_char(v % 10));
    assert(digits_value(s1) == v / 100);
    assert(digits_value(s2) == (v / 100) * 10 + (v / 10) % 10);
}

/// Appends `v`, which is below a thousand, in three digits.
pub fn push_three_digits(out: &mut Vec<char>, v: u64)
    requires
        v < 1000,
    ensures
        final(out)@ == old(out)@ + three_digits(v as nat),
{
    out.push(digit_char_of((v / 100) as u8));
    out.push(digit_char_of(((v / 10) % 10) as u8));
    out.push(digit_char_of((v % 10) as u8));
    assert(out@ =~= old(out)@ + three_digits(v as nat));
}

/// The number that the hexadecimal digit `c` stands for, in either case.
pub open spec fn hex_value(c: char) -> Option<nat> {
    if '0' <= c <= '9' {
        Some((c as u32 - 48) as nat)
    } else if 'a' <= c <= 'f' {
        Some((c as u32 - 87) as nat)
    } else if 'A' <= c <= 'F' {
        Some((c as u32 - 55) as nat)
    } else {
        None
    }
}

/// The number that the lower-case hexadecimal digit `c` stands for: `0` to
/// `9` and `a` to `f`, no capitals.
pub open spec fn lower_hex_value(c: char) -> Option<nat> {
    if '0' <= c <= '9' {
        Some((c as u32 - 48) as nat)
    } else if 'a' <= c <= 'f' {
        Some((c as u32 - 87) as nat)
    } else {
        None
    }
}

/// The lower-case hexadecimal digit for `v`, which is below sixteen.
pub open spec fn hex_char(v: nat) -> char {
    if v < 10 {
        ((48 + v) as u8) as char
    } else {
        ((87 + v) as u8) as char
    }
}

/// The number that the hexadecimal digit `c` stands for, where it is one.
pub fn char_hex_value(c: char) -> (r: Option<u8>)
    ensures
        r is Some <==> hex_value(c) is Some,
        r matches Some(v) ==> hex_value(c) == Some(v as nat) && v < 16,
{
    if '0' <= c && c <= '9' {
        Some((c as u32 - 48) as u8)
    } else if 'a' <= c && c <= 'f' {
        Some((c as u32 - 87) as u8)
    } else if 'A' <= c && c <= 'F' {
        Some((c as u32 - 55) as u8)
    } else {
        None
    }
}

/// The number that the lower-case hexadecimal digit `c` stands for, where it
/// is one.
pub fn char_lower_hex_value(c: char) -> (r: Option<u8>)
    ensures
        r is Some <==> lower_hex_value(c) is Some,
        r matches Some(v) ==> lower_hex_value(c) == Some(v as nat) && v < 16,
{
    if '0' <= c && c <= '9' {
        Some((c as u32 - 48) as u8)
    } else if 'a' <= c && c <= 'f' {
        Some((c as u32 - 87) as u8)
    } else {
        None
    }
}

/// The lower-case hexadecimal digit for `v`.
pub fn hex_char_of(v: u8) -> (c: char)
    requires
        v < 16,
    ensures
        c == hex_char(v as nat),
        hex_value(c) == Some(v as nat),
        lower_hex_value(c) == Some(v as nat),
{
    if v < 10 {
        (48 + v) as char
    } else {
        (87 + v) as char
    }
}

} // verus!
