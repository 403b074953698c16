use dxcluster::number::{parse_i64_chars, parse_u32_chars, parse_u64_chars, push_i64, push_u64};
use dxcluster::text::{
    char_ascii_upper, char_is_whitespace, chars_eq_ignore_ascii_case, chars_of, join_chars,
    split_chars, split_whitespace_chars, string_of, trim_chars, trim_end_alphabetic_chars,
};

fn chars(s: &str) -> Vec<char> {
    s.chars().collect()
}

fn strings(parts: &[Vec<char>]) -> Vec<String> {
    parts.iter().map(|p| p.iter().collect()).collect()
}

#[test]
fn whitespace_is_what_std_calls_whitespace() {
    for code in 0u32..=0x10FFFF {
        if let Some(c) = char::from_u32(code) {
            assert_eq!(char_is_whitespace(c), c.is_whitespace(), "U+{:04X}", code);
        }
    }
}

#[test]
fn ascii_upper_is_what_std_gives() {
    for code in 0u32..=0x10FFFF {
        if let Some(c) = char::from_u32(code) {
            assert_eq!(char_ascii_upper(c), c.to_ascii_uppercase(), "U+{:04X}", code);
        }
    }
}

#[test]
fn chars_and_strings_convert_both_ways() {
    for s in ["", "abc", "DX de N0CALL", "tsch\u{fc}\u{df}", "\u{1F600} ok"] {
        assert_eq!(chars_of(s), chars(s));
        assert_eq!(string_of(&chars(s)), s);
    }
}

#[test]
fn trim_is_what_std_trims() {
    for s in [
        "",
        " ",
        "  abc  ",
        "\t\n abc def \r\n",
        "\u{a0}abc\u{3000}",
        "abc",
        " \u{2003}x\u{2003} ",
        "a b",
    ] {
        let t: String = trim_chars(&chars(s)).iter().collect();
        assert_eq!(t, s.trim(), "{:?}", s);
    }
}

#[test]
fn trailing_letters_are_trimmed() {
    for s in ["14074kHz", "14.070", "abc", "", "7030 k", "1e3", "1e", "12\u{e9}"] {
        let t: String = trim_end_alphabetic_chars(&chars(s)).iter().collect();
        assert_eq!(t, s.trim_end_matches(|c: char| c.is_ascii_alphabetic()), "{:?}", s);
    }
}

#[test]
fn split_is_what_std_splits() {
    for s in ["", "|", "a|b", "a||b|", "|a", "abc", "SPOT|x|y|z", "a,b"] {
        let got = strings(&split_chars(&chars(s), '|'));
        let want: Vec<String> = s.split('|').map(|p| p.to_string()).collect();
        assert_eq!(got, want, "{:?}", s);
    }
}

#[test]
fn tokens_are_what_std_splits_at_whitespace() {
    for s in ["", "   ", "a", " a  b\tc\n", "K1ABC 14074  first   spot ", "\u{3000}x\u{a0}y"] {
        let got = strings(&split_whitespace_chars(&chars(s)));
        let want: Vec<String> = s.split_whitespace().map(|p| p.to_string()).collect();
        assert_eq!(got, want, "{:?}", s);
    }
}

#[test]
fn join_is_what_std_joins() {
    let cases: [&[&str]; 4] = [&[], &["a"], &["a", "b", "c"], &["", "x", ""]];
    for parts in cases {
        let owned: Vec<Vec<char>> = parts.iter().map(|p| chars(p)).collect();
        let got: String = join_chars(&owned, &[',', ' ']).iter().collect();
        assert_eq!(got, parts.join(", "));
    }
}

#[test]
fn keywords_compare_in_either_case() {
    assert!(chars_eq_ignore_ascii_case(&chars("sh/dx"), &chars("SH/DX")));
    assert!(chars_eq_ignore_ascii_case(&chars("PiNg"), &chars("pInG")));
    assert!(!chars_eq_ignore_ascii_case(&chars("ping"), &chars("pong")));
    assert!(!chars_eq_ignore_ascii_case(&chars("ping"), &chars("pin")));
    assert!(!chars_eq_ignore_ascii_case(&chars("\u{212a}"), &chars("k")));
}

#[test]
fn unsigned_numbers_read_as_std_reads_them() {
    for s in [
        "",
        "0",
        "+0",
        "-0",
        "+",
        "-",
        "007",
        "14074000",
        "18446744073709551615",
        "18446744073709551616",
        "99999999999999999999999",
        "4294967295",
        "4294967296",
        "12a",
        " 1",
        "1 ",
        "+-1",
        "\u{661}",
    ] {
        assert_eq!(parse_u64_chars(&chars(s)), s.parse::<u64>().ok(), "{:?}", s);
        assert_eq!(parse_u32_chars(&chars(s)), s.parse::<u32>().ok(), "{:?}", s);
    }
}

#[test]
fn signed_numbers_read_as_std_reads_them() {
    for s in [
        "",
        "0",
        "+0",
        "-0",
        "+",
        "-",
        "-1",
        "1700000000",
        "-377705116800",
        "9223372036854775807",
        "9223372036854775808",
        "-9223372036854775808",
        "-9223372036854775809",
        "--1",
        "1-",
        "1.0",
    ] {
        assert_eq!(parse_i64_chars(&chars(s)), s.parse::<i64>().ok(), "{:?}", s);
    }
}

#[test]
fn numbers_are_written_as_std_writes_them() {
    for n in [0u64, 7, 10, 99, 100, 14_074_000, u64::MAX] {
        let mut out = Vec::new();
        push_u64(&mut out, n);
        assert_eq!(out.iter().collect::<String>(), n.to_string());
    }
    for n in [0i64, -1, 1, -10, 1_700_000_000, i64::MIN, i64::MAX] {
        let mut out = vec!['x'];
        push_i64(&mut out, n);
        assert_eq!(out.iter().collect::<String>(), format!("x{}", n));
    }
}
