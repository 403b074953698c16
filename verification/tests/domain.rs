use dxcluster::callsign::Callsign;
use dxcluster::dedupe::{DedupeResult, DedupeTable};
use dxcluster::error::{CallsignError, FrequencyError, PolicyReject};
use dxcluster::frequency::FrequencyHz;
use dxcluster::ids::{i64_be_bytes, u64_be_bytes, NodeId, SpotId};
use dxcluster::normalize;
use dxcluster::spot::{Spot, Timestamp, MAX_UNIX_TIMESTAMP, MIN_UNIX_TIMESTAMP};
use dxcluster::{Filter, Mode, Policy, RateLimiter, Span, SpotCache};

fn spot(dx: &str, hop: u32) -> Spot {
    Spot {
        spot_id: SpotId([7u8; 32]),
        ts: Timestamp::from_unix_timestamp(1_700_000_000).expect("timestamp"),
        freq: FrequencyHz(14_074_000),
        dx: Callsign::parse_loose(dx).expect("dx"),
        spotter: Callsign::parse_loose("N0CALL").expect("spotter"),
        comment: String::from("cq"),
        origin: None,
        hop,
    }
}

#[test]
fn callsigns_are_trimmed_and_upper_case() {
    assert_eq!(Callsign::parse_loose("  k1abc \n").unwrap().as_str(), "K1ABC");
    assert_eq!(Callsign::parse_loose("x").unwrap(), Callsign::parse_loose("X").unwrap());
    assert_eq!(Callsign::parse_loose("w1aw/p").unwrap().as_str(), "W1AW/P");
    assert_eq!(Callsign::parse_loose("stra\u{df}e").unwrap().as_str(), "STRASSE");
    assert_eq!(Callsign::new(String::from(" ab1c ")).unwrap().as_str(), " AB1C ");
    assert_eq!(normalize::callsign(" dl1abc "), "DL1ABC");
}

#[test]
fn empty_callsigns_are_refused() {
    assert_eq!(Callsign::parse_loose(""), Err(CallsignError::Empty));
    assert_eq!(Callsign::parse_loose("  \t "), Err(CallsignError::Empty));
    assert_eq!(Callsign::parse_strict(" "), Err(CallsignError::Empty));
    assert_eq!(Callsign::new(String::new()), Err(CallsignError::Empty));
    assert_eq!(Callsign::validate("", false), Err(CallsignError::Empty));
}

#[test]
fn strict_callsigns_need_a_digit_and_plain_characters() {
    assert_eq!(Callsign::parse_strict("k1abc").unwrap().as_str(), "K1ABC");
    assert_eq!(Callsign::parse_strict("dl/k1abc").unwrap().as_str(), "DL/K1ABC");
    assert_eq!(Callsign::parse_strict("abc"), Err(CallsignError::InvalidFormat));
    assert_eq!(Callsign::parse_strict("k1-abc"), Err(CallsignError::InvalidFormat));
    assert_eq!(Callsign::parse_strict("k1 abc"), Err(CallsignError::InvalidFormat));
    assert_eq!(Callsign::validate("k1abc", true), Ok(()));
    assert_eq!(Callsign::validate("kabc", false), Ok(()));
    assert!(Callsign::parse_loose("no digit").is_ok());
}

#[test]
fn canonical_callsigns_are_told_apart() {
    assert!(Callsign::parse_loose("k1abc").unwrap().is_canonical());
    assert!(!Callsign::new(String::from(" ab1c ")).unwrap().is_canonical());
}

#[test]
fn error_messages_are_worded() {
    assert_eq!(CallsignError::Empty.message(), "callsign is empty");
    assert_eq!(CallsignError::InvalidFormat.message(), "callsign has invalid format");
    assert_eq!(FrequencyError::Missing.message(), "frequency value is missing");
    assert_eq!(FrequencyError::Invalid.message(), "frequency string is invalid");
    assert_eq!(PolicyReject::new(String::from("too old")).message(), "too old");
    assert_eq!(PolicyReject::new(String::from("x")).clone().reason, "x");
    assert_eq!(dxcluster::NodeError::Listener.message(), "failed to start listener");
    assert_eq!(dxcluster::NodeError::Join.message(), "task join error");
}

#[test]
fn frequency_parsing() {
    let f = FrequencyHz::from_khz_str("14.070").unwrap();
    assert_eq!(f, FrequencyHz(14_070));
    assert_eq!(f.to_khz_string(), "14.070");
    assert_eq!(FrequencyHz::from_khz_str(&f.to_khz_string()), Ok(f));
    let g = FrequencyHz::from_khz_str("14070").unwrap();
    assert_eq!(g, FrequencyHz(14_070_000));
    assert_eq!(g.to_khz_string(), "14070");
    assert_eq!(FrequencyHz::from_khz_str(&g.to_khz_string()), Ok(g));
}

#[test]
fn frequencies_are_written_in_kilohertz() {
    assert_eq!(FrequencyHz(0).to_khz_string(), "0");
    assert_eq!(FrequencyHz(1).to_khz_string(), "0.001");
    assert_eq!(FrequencyHz(14_074_000).to_khz_string(), "14074");
    assert_eq!(FrequencyHz(14_074_500).to_khz_string(), "14074.500");
    assert_eq!(FrequencyHz(7_038_060).to_khz_string(), "7038.060");
    assert_eq!(FrequencyHz(u64::MAX).to_khz_string(), "18446744073709551.615");
    for hz in [0u64, 1, 999, 1000, 1001, 14_074_000, 7_038_060, u64::MAX, u64::MAX - 615] {
        let text = FrequencyHz(hz).to_khz_string();
        assert_eq!(FrequencyHz::from_khz_str(&text), Ok(FrequencyHz(hz)), "{}", text);
    }
}

#[test]
fn frequencies_are_read_in_kilohertz() {
    let cases: [(&str, u64); 23] = [
        ("14074", 14_074_000),
        (" 14074 ", 14_074_000),
        ("14074kHz", 14_074_000),
        ("14.074MHz", 14_074),
        ("1e", 1_000),
        ("+7", 7_000),
        ("7.", 7_000),
        (".5", 500),
        ("0.0004", 0),
        ("0.0005", 1),
        ("0.00049999999999999999999999999", 0),
        ("7038.5", 7_038_500),
        ("7.0385", 7_039),
        ("1e3", 1_000_000),
        ("1E3", 1_000_000),
        ("1.5e-3", 2),
        ("1e-4", 0),
        ("12e+1", 120_000),
        ("0e999999999999999999999999", 0),
        ("1e999999999999999999999999", u64::MAX),
        ("1e-999999999999999999999999", 0),
        ("18446744073709551615", u64::MAX),
        ("000000000000000000000000000001", 1_000),
    ];
    for (text, hz) in cases {
        assert_eq!(FrequencyHz::from_khz_str(text), Ok(FrequencyHz(hz)), "{:?}", text);
    }
}

#[test]
fn frequencies_agree_with_floating_point_on_plain_inputs() {
    for text in ["14074", "14.070", "7038.5", "3573", "50313.0", "0.5", "144174", "1e3", "10136.25"] {
        let value: f64 = text.parse().unwrap();
        let want = (value * 1000.0).round() as u64;
        assert_eq!(FrequencyHz::from_khz_str(text), Ok(FrequencyHz(want)), "{:?}", text);
    }
}

#[test]
fn frequencies_without_a_number_are_refused() {
    for text in ["", "   ", "kHz", "  MHz ", "inf", "nan", "infinity"] {
        assert_eq!(FrequencyHz::from_khz_str(text), Err(FrequencyError::Missing), "{:?}", text);
    }
    for text in [
        "-1", "-0", "-0.0001", "+", "-", ".", "e5", "1e+", "1..2", "1.2.3", "1,5", "14 074",
        "0x10", "+inf", "-nan", "1e5.5", "++1", "1_000", "14074 kHz",
    ] {
        assert_eq!(FrequencyHz::from_khz_str(text), Err(FrequencyError::Invalid), "{:?}", text);
    }
}

#[test]
fn units_and_comments_are_normalised() {
    assert_eq!(normalize::trim_units(" 14074kHz "), "14074");
    assert_eq!(normalize::trim_units("7030 k"), "7030 ");
    assert_eq!(normalize::trim_units("MHz"), "");
    assert_eq!(normalize::comment("  cq dx\nup 5 \n"), "cq dx up 5");
    assert_eq!(normalize::comment(""), "");
    assert_eq!(normalize::comment("a\n\nb"), "a b");
    assert_eq!(normalize::comment(" \t a  b\r\n\u{3000}c \n"), "a b c");
    assert_eq!(normalize::comment(" \n "), "");
    assert_eq!(normalize::comment("one"), "one");
}

#[test]
fn spot_ids_are_blake3_digests() {
    let empty = SpotId::hash_components(&[]);
    let hex: String = empty.0.iter().map(|b| format!("{:02x}", b)).collect();
    assert_eq!(hex, "af1349b9f5f9a1a6a0404dea36dcc9499bcb25c9adc112b7cc9a93cae41f3262");
    let parts: [&[u8]; 3] = [b"K1ABC", b"\x00\x00", b"xyz"];
    let id = SpotId::hash_components(&parts);
    assert_eq!(&id.0, blake3::hash(b"K1ABC\x00\x00xyz").as_bytes());
    assert_eq!(id, SpotId::hash_components(&[b"K1", b"ABC\x00", b"\x00xyz"]));
    assert_ne!(id, SpotId::hash_components(&[b"K1ABD", b"\x00\x00", b"xyz"]));
}

#[test]
fn integers_are_written_high_byte_first() {
    assert_eq!(u64_be_bytes(14_074_000), 14_074_000u64.to_be_bytes().to_vec());
    assert_eq!(u64_be_bytes(u64::MAX), u64::MAX.to_be_bytes().to_vec());
    assert_eq!(u64_be_bytes(0), vec![0u8; 8]);
    for v in [0i64, 1, -1, 1_700_000_000, -377_705_116_800, i64::MIN, i64::MAX] {
        assert_eq!(i64_be_bytes(v), v.to_be_bytes().to_vec(), "{}", v);
    }
}

#[test]
fn timestamps_span_the_years_of_the_calendar() {
    assert_eq!(Timestamp::from_unix_timestamp(0).unwrap().unix_timestamp(), 0);
    assert_eq!(
        Timestamp::from_unix_timestamp(MIN_UNIX_TIMESTAMP).unwrap().unix_timestamp(),
        MIN_UNIX_TIMESTAMP
    );
    assert_eq!(
        Timestamp::from_unix_timestamp(MAX_UNIX_TIMESTAMP).unwrap().unix_timestamp(),
        MAX_UNIX_TIMESTAMP
    );
    assert!(Timestamp::from_unix_timestamp(MIN_UNIX_TIMESTAMP - 1).is_none());
    assert!(Timestamp::from_unix_timestamp(MAX_UNIX_TIMESTAMP + 1).is_none());
    assert!(Timestamp::from_unix_timestamp(i64::MAX).is_none());
    assert!(Timestamp::from_unix_timestamp(i64::MIN).is_none());
    for secs in [MIN_UNIX_TIMESTAMP, -1, 0, 1_700_000_000, MAX_UNIX_TIMESTAMP] {
        assert_eq!(
            time::OffsetDateTime::from_unix_timestamp(secs).unwrap().unix_timestamp(),
            secs
        );
    }
    assert_eq!(time::OffsetDateTime::from_unix_timestamp(MIN_UNIX_TIMESTAMP).unwrap().year(), -9999);
    assert_eq!(time::OffsetDateTime::from_unix_timestamp(MAX_UNIX_TIMESTAMP).unwrap().year(), 9999);
}

#[test]
fn now_is_a_moment_of_this_century() {
    let now = Timestamp::now_utc().unix_timestamp();
    assert!(now > 1_700_000_000);
    assert!(now < 4_102_444_800);
    let again = time::OffsetDateTime::now_utc().unix_timestamp();
    assert!(again - now >= 0 && again - now < 5);
}

#[test]
fn new_spots_have_no_hops() {
    let s = Spot::new_local(
        SpotId([0u8; 32]),
        Timestamp::from_unix_timestamp(5).unwrap(),
        FrequencyHz(7_000_000),
        Callsign::parse_loose("k1abc").unwrap(),
        Callsign::parse_loose("w1aw").unwrap(),
        String::from("hello"),
        Some(NodeId(String::from("node-a"))),
    );
    assert_eq!(s.hop, 0);
    assert_eq!(s.dx.as_str(), "K1ABC");
    assert_eq!(s.spotter.as_str(), "W1AW");
    assert_eq!(s.comment, "hello");
    assert_eq!(s.origin, Some(NodeId(String::from("node-a"))));
    assert_eq!(s.ts.unix_timestamp(), 5);
    assert_eq!(s.clone(), s);
}

#[test]
fn hops_count_up_and_stop_at_the_top() {
    assert_eq!(spot("K1ABC", 0).forwarded().hop, 1);
    assert_eq!(spot("K1ABC", 41).forwarded().hop, 42);
    assert_eq!(spot("K1ABC", u32::MAX - 1).forwarded().hop, u32::MAX);
    assert_eq!(spot("K1ABC", u32::MAX).forwarded().hop, u32::MAX);
    let s = spot("K1ABC", 3);
    let f = s.forwarded();
    assert_eq!(f.dx, s.dx);
    assert_eq!(f.comment, s.comment);
    assert_eq!(f.spot_id, s.spot_id);
}

#[test]
fn cache_bound() {
    let mut cache = SpotCache::new(3);
    assert_eq!(cache.len(), 0);
    assert!(cache.recent(5).is_empty());
    for (i, dx) in ["A1A", "B2B", "C3C", "D4D", "E5E"].iter().enumerate() {
        cache.push(spot(dx, i as u32));
        assert!(cache.len() <= 3);
    }
    assert_eq!(cache.len(), 3);
    let names: Vec<String> = cache.recent(10).iter().map(|s| s.dx.as_str().to_string()).collect();
    assert_eq!(names, ["E5E", "D4D", "C3C"]);
    let names: Vec<String> = cache.recent(2).iter().map(|s| s.dx.as_str().to_string()).collect();
    assert_eq!(names, ["E5E", "D4D"]);
    assert!(cache.recent(0).is_empty());
}

#[test]
fn a_cache_without_room_stays_empty() {
    let mut cache = SpotCache::new(0);
    cache.push(spot("A1A", 0));
    assert_eq!(cache.len(), 0);
    assert!(cache.recent(1).is_empty());
}

#[test]
fn a_cache_of_the_usual_size_keeps_the_newest() {
    let mut cache = SpotCache::new(256);
    for i in 0..300u32 {
        cache.push(spot("K1ABC", i));
        assert!(cache.len() <= 256);
    }
    assert_eq!(cache.len(), 256);
    let recent = cache.recent(256);
    assert_eq!(recent.len(), 256);
    assert_eq!(recent[0].hop, 299);
    assert_eq!(recent[255].hop, 44);
}

#[test]
fn duplicates_are_told_from_fresh_and_expired_spots() {
    let mut table = DedupeTable::new(Span::from_secs(60));
    let a = SpotId([1u8; 32]);
    let b = SpotId([2u8; 32]);
    assert_eq!(table.check_and_mark(a, 1000), DedupeResult::Fresh);
    assert_eq!(table.check_and_mark(a, 1060), DedupeResult::Duplicate);
    assert_eq!(table.check_and_mark(a, 1121), DedupeResult::Expired);
    assert_eq!(table.check_and_mark(a, 1121), DedupeResult::Duplicate);
    assert_eq!(table.check_and_mark(b, 1121), DedupeResult::Fresh);
    assert_eq!(table.check_and_mark(a, 5), DedupeResult::Duplicate);
    assert_eq!(table.check_and_mark(a, 66), DedupeResult::Expired);
    assert_eq!(table.check_and_mark(b, 1181), DedupeResult::Duplicate);
    let mut short = DedupeTable::new(Span::from_millis(1999));
    assert_eq!(short.check_and_mark(a, 10), DedupeResult::Fresh);
    assert_eq!(short.check_and_mark(a, 11), DedupeResult::Duplicate);
    assert_eq!(short.check_and_mark(a, 13), DedupeResult::Expired);
}

#[test]
fn spans_are_lengths_of_time() {
    assert_eq!(Span::from_secs(2).as_nanos(), 2_000_000_000);
    assert_eq!(Span::from_millis(1500).as_nanos(), 1_500_000_000);
    assert_eq!(Span::from_millis(1999).as_secs(), 1);
    assert_eq!(Span::from_nanos(u128::MAX).as_secs(), u64::MAX);
    assert_eq!(Span::from_secs(u64::MAX).as_secs(), u64::MAX);
    assert_eq!(Span::from_secs(1).longer(Span::from_millis(200)), Span::from_secs(1));
    assert_eq!(Span::from_secs(1).shorter(Span::from_millis(200)), Span::from_millis(200));
}

#[test]
fn the_default_rules_let_every_spot_pass() {
    let s = spot("K1ABC", 0);
    assert!(Filter.matches(&s));
    assert_eq!(Filter.summary(), "Filters: accepting all spots");
    assert_eq!(Policy.accept(&s), Ok(()));
    assert!(RateLimiter.check(&s));
    assert_eq!(Mode::Other(String::from("FT8")).clone(), Mode::Other(String::from("FT8")));
    assert_ne!(Mode::Cw, Mode::Ssb);
}

#[test]
fn frequencies_are_read_from_text() {
    assert_eq!("7030.5".parse::<FrequencyHz>(), Ok(FrequencyHz(7_030_500)));
    assert_eq!("".parse::<FrequencyHz>(), Err(FrequencyError::Missing));
    assert_eq!("x1".parse::<FrequencyHz>(), Err(FrequencyError::Invalid));
}
