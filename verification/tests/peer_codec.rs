use dxcluster::callsign::Callsign;
use dxcluster::client::{ClientError, ClientEvent, ClientHandle, PeerClient, TelnetClient, TelnetOptions};
use dxcluster::cli::{build_options, CliError, SpotArgs};
use dxcluster::error::{CallsignError, FrequencyError, PeerParseError};
use dxcluster::frequency::FrequencyHz;
use dxcluster::ids::{NodeId, SpotId};
use dxcluster::peer::PeerFrame;
use dxcluster::spot::{Spot, Timestamp, MAX_UNIX_TIMESTAMP, MIN_UNIX_TIMESTAMP};
use dxcluster::user::{ServerLine, ShowCommand, UserCommand};

fn sample() -> Spot {
    Spot {
        spot_id: SpotId([1u8; 32]),
        ts: Timestamp::from_unix_timestamp(1_700_000_000).expect("timestamp"),
        freq: FrequencyHz(14_074_000),
        dx: Callsign::parse_loose("K1ABC").expect("dx callsign"),
        spotter: Callsign::parse_loose("N0CALL").expect("spotter callsign"),
        comment: "test spot".to_string(),
        origin: Some(NodeId("node-a".to_string())),
        hop: 2,
    }
}

fn id_text() -> String {
    "01".repeat(32)
}

#[test]
fn frames_are_written_field_by_field() {
    assert_eq!(
        PeerFrame::Spot { spot: sample() }.to_line(),
        format!("SPOT|{}|1700000000|14074000|K1ABC|N0CALL|test spot|node-a|2", id_text())
    );
    let mut spot = sample();
    spot.origin = None;
    spot.comment = "a|b%c\nd\re".into();
    spot.ts = Timestamp::from_unix_timestamp(-5).unwrap();
    assert_eq!(
        PeerFrame::Spot { spot }.to_line(),
        format!("SPOT|{}|-5|14074000|K1ABC|N0CALL|a%7Cb%25c%0Ad%0De||2", id_text())
    );
    assert_eq!(
        PeerFrame::Hello { node_id: NodeId("n".into()), version: "2".into() }.to_line(),
        "HELLO|n|2"
    );
    assert_eq!(PeerFrame::Capabilities { values: vec![] }.to_line(), "CAPS|");
    assert_eq!(
        PeerFrame::Capabilities { values: vec!["a".into(), "b".into()] }.to_line(),
        "CAPS|a,b"
    );
    assert_eq!(PeerFrame::Auth { token: "t".into() }.to_line(), "AUTH|t");
    assert_eq!(PeerFrame::Heartbeat { nonce: "5".into() }.to_line(), "HEARTBEAT|5");
    assert_eq!(PeerFrame::Ping { nonce: "x".into() }.to_line(), "PING|x");
    assert_eq!(PeerFrame::Pong { nonce: "x".into() }.to_line(), "PONG|x");
}

#[test]
fn frames_are_read_field_by_field() {
    assert_eq!(
        PeerFrame::parse("  HELLO|node-b\n"),
        Ok(PeerFrame::Hello { node_id: NodeId("node-b".into()), version: "1".into() })
    );
    assert_eq!(
        PeerFrame::parse("HELLO||3|more"),
        Ok(PeerFrame::Hello { node_id: NodeId(String::new()), version: "3".into() })
    );
    assert_eq!(
        PeerFrame::parse("CAPS| a , ,b,,  "),
        Ok(PeerFrame::Capabilities { values: vec!["a".into(), "b".into()] })
    );
    assert_eq!(PeerFrame::parse("CAPS"), Ok(PeerFrame::Capabilities { values: vec![] }));
    assert_eq!(PeerFrame::parse("AUTH|s3cret"), Ok(PeerFrame::Auth { token: "s3cret".into() }));
    assert_eq!(PeerFrame::parse("HEARTBEAT"), Ok(PeerFrame::Heartbeat { nonce: String::new() }));
    assert_eq!(PeerFrame::parse("PING|1|2"), Ok(PeerFrame::Ping { nonce: "1".into() }));
    assert_eq!(PeerFrame::parse("PONG|"), Ok(PeerFrame::Pong { nonce: String::new() }));
    let line = format!("SPOT|{}|+1700000000|+14074000| k1abc |n0call|50%25 %7c %zz %4|node-a|02", id_text());
    let mut expected = sample();
    expected.comment = "50% | %zz %4".into();
    assert_eq!(PeerFrame::parse(&line), Ok(PeerFrame::Spot { spot: expected }));
}

#[test]
fn frames_that_are_none_are_refused() {
    let id = id_text();
    let cases: Vec<(String, PeerParseError)> = vec![
        ("".into(), PeerParseError::Empty),
        (" \n".into(), PeerParseError::Empty),
        ("hello|x".into(), PeerParseError::Unknown),
        ("HELLOO|x".into(), PeerParseError::Unknown),
        ("|HELLO".into(), PeerParseError::Unknown),
        ("HELLO".into(), PeerParseError::Missing("node id")),
        ("AUTH".into(), PeerParseError::Missing("auth token")),
        ("AUTH|".into(), PeerParseError::Missing("auth token")),
        ("SPOT".into(), PeerParseError::Missing("spot id")),
        (format!("SPOT|{id}"), PeerParseError::Missing("timestamp")),
        (format!("SPOT|{id}|1"), PeerParseError::Missing("frequency")),
        (format!("SPOT|{id}|1|2"), PeerParseError::Missing("dx callsign")),
        (format!("SPOT|{id}|1|2|K1ABC"), PeerParseError::Missing("spotter callsign")),
        (format!("SPOT|{id}|1|2|K1ABC|N0CALL"), PeerParseError::Missing("comment")),
        (format!("SPOT|{id}|1|2|K1ABC|N0CALL|c"), PeerParseError::Missing("origin")),
        (format!("SPOT|{id}|1|2|K1ABC|N0CALL|c|o"), PeerParseError::Missing("hop")),
        (format!("SPOT|{id}|x|y||N0CALL|c|o"), PeerParseError::Missing("hop")),
        (format!("SPOT|{id}|1|2|K1ABC|N0CALL|c|o|"), PeerParseError::Invalid("hop")),
        (format!("SPOT|{id}|1|2|K1ABC|N0CALL|c|o|1|"), PeerParseError::Invalid("field count")),
        (format!("SPOT|zz|x|y||N0CALL|c|o|z|more"), PeerParseError::Invalid("field count")),
        (format!("SPOT|{}|1|2|K1ABC|N0CALL|c|o|1", "0A".repeat(32)), PeerParseError::Invalid("spot id")),
        (format!("SPOT|{}|1|2|K1ABC|N0CALL|c|o|1", "+1".repeat(32)), PeerParseError::Invalid("spot id")),
        (format!("SPOT|{id}|1|2|K1ABC|N0CALL|c|o|-1"), PeerParseError::Invalid("hop")),
        (format!("SPOT|{id}|1|2|K1ABC|N0CALL|c|o|4294967296"), PeerParseError::Invalid("hop")),
        (format!("SPOT|0{id}|1|2|K1ABC|N0CALL|c|o|1"), PeerParseError::Invalid("spot id")),
        (format!("SPOT|{id}|x|y||N0CALL|c|o|z"), PeerParseError::Invalid("timestamp")),
        (format!("SPOT|{id}|{}|y||N0CALL|c|o|z", MAX_UNIX_TIMESTAMP + 1), PeerParseError::Invalid("timestamp")),
        (format!("SPOT|{id}|{}|y||N0CALL|c|o|z", MIN_UNIX_TIMESTAMP - 1), PeerParseError::Invalid("timestamp")),
        (format!("SPOT|{id}|1|-2|K1ABC|N0CALL|c|o|1"), PeerParseError::Invalid("frequency")),
        (format!("SPOT|{id}|1|18446744073709551616|K1ABC|N0CALL|c|o|1"), PeerParseError::Invalid("frequency")),
        (format!("SPOT|{id}|1|2| |N0CALL|c|o|1"), PeerParseError::Invalid("dx callsign")),
        (format!("SPOT|{id}|1|2|K1ABC||c|o|1"), PeerParseError::Invalid("spotter callsign")),
    ];
    for (line, error) in cases {
        assert_eq!(PeerFrame::parse(&line), Err(error), "{:?}", line);
    }
    assert_eq!(PeerParseError::Empty.message(), "frame was empty");
    assert_eq!(PeerParseError::Unknown.message(), "frame type was not recognized");
    assert_eq!(PeerParseError::Missing("node id").message(), "frame missing node id");
    assert_eq!(PeerParseError::Invalid("hop").message(), "frame invalid: hop");
}

#[test]
fn spot_round_trip() {
    let mut spots = vec![sample()];
    let mut odd = sample();
    odd.comment = " |%| %7C%25 \n\r\t \u{e9}\u{1F600} ".into();
    odd.origin = None;
    odd.hop = u32::MAX;
    odd.freq = FrequencyHz(u64::MAX);
    odd.ts = Timestamp::from_unix_timestamp(MIN_UNIX_TIMESTAMP).unwrap();
    odd.spot_id = SpotId([0xff; 32]);
    odd.dx = Callsign::parse_loose("w1aw/qrp").unwrap();
    spots.push(odd);
    let mut late = sample();
    late.comment = String::new();
    late.ts = Timestamp::from_unix_timestamp(MAX_UNIX_TIMESTAMP).unwrap();
    late.hop = 0;
    late.freq = FrequencyHz(0);
    spots.push(late);
    for spot in spots {
        assert!(spot.is_wire_safe());
        let frame = PeerFrame::Spot { spot };
        assert!(frame.is_wire_safe());
        let line = frame.to_line();
        assert!(!line.contains('\n'));
        assert_eq!(PeerFrame::parse(&line), Ok(frame.clone()), "{:?}", line);
    }
}

#[test]
fn frames_that_do_not_survive_a_link_are_told_apart() {
    let mut barred = sample();
    barred.dx = Callsign::parse_loose("K1|ABC").unwrap();
    assert!(!barred.is_wire_safe());
    assert_ne!(
        PeerFrame::parse(&PeerFrame::Spot { spot: barred.clone() }.to_line()),
        Ok(PeerFrame::Spot { spot: barred })
    );
    let mut nameless = sample();
    nameless.origin = Some(NodeId(String::new()));
    assert!(!nameless.is_wire_safe());
    let frames = [
        PeerFrame::Hello { node_id: NodeId("a|b".into()), version: "1".into() },
        PeerFrame::Hello { node_id: NodeId("a".into()), version: "1 ".into() },
        PeerFrame::Capabilities { values: vec!["a,b".into()] },
        PeerFrame::Capabilities { values: vec![" a".into()] },
        PeerFrame::Capabilities { values: vec![String::new()] },
        PeerFrame::Auth { token: String::new() },
        PeerFrame::Ping { nonce: "x\n".into() },
    ];
    for frame in frames {
        assert!(!frame.is_wire_safe(), "{:?}", frame);
        assert_ne!(PeerFrame::parse(&frame.to_line()), Ok(frame.clone()), "{:?}", frame);
    }
    let fine = [
        PeerFrame::Hello { node_id: NodeId(" a b ".into()), version: String::new() },
        PeerFrame::Capabilities { values: vec![] },
        PeerFrame::Capabilities { values: vec!["spots v1".into(), "x".into()] },
        PeerFrame::Auth { token: " t".into() },
        PeerFrame::Heartbeat { nonce: String::new() },
        PeerFrame::Pong { nonce: " 1,2".into() },
    ];
    for frame in fine {
        assert!(frame.is_wire_safe(), "{:?}", frame);
        assert_eq!(PeerFrame::parse(&frame.to_line()), Ok(frame.clone()), "{:?}", frame);
    }
}

#[test]
fn command_line_arguments_become_commands() {
    let args = SpotArgs {
        dx: " w1aw ".into(),
        frequency: "7030kHz".into(),
        comment: vec![],
    };
    assert_eq!(
        args.into_command(),
        Ok(UserCommand::Dx {
            dx: Callsign::parse_loose("W1AW").unwrap(),
            frequency: FrequencyHz(7_030_000),
            comment: String::new(),
        })
    );
    let args = SpotArgs { dx: " ".into(), frequency: "7030".into(), comment: vec![] };
    assert_eq!(args.into_command(), Err(CliError::InvalidCallsign(CallsignError::Empty)));
    let args = SpotArgs { dx: "w1aw".into(), frequency: "-1".into(), comment: vec![] };
    assert_eq!(args.into_command(), Err(CliError::InvalidFrequency(FrequencyError::Invalid)));
    let args = SpotArgs { dx: "w1aw".into(), frequency: "khz".into(), comment: vec!["a b".into(), "".into()] };
    assert_eq!(args.into_command(), Err(CliError::InvalidFrequency(FrequencyError::Missing)));
    assert_eq!(CliError::InvalidCallsign(CallsignError::Empty).message(), "invalid callsign");
    assert_eq!(CliError::InvalidFrequency(FrequencyError::Invalid).message(), "invalid frequency");
    let options = build_options(None, Some("pw".into())).unwrap();
    assert!(options.callsign.is_none());
    assert_eq!(options.password.as_deref(), Some("pw"));
    assert_eq!(
        build_options(Some(" "), None).unwrap_err(),
        CliError::InvalidCallsign(CallsignError::Empty)
    );
}

#[test]
fn clients_answer_before_a_transport_carries_anything() {
    let options = dxcluster::client::PeerOptions { node_id: NodeId("me".into()), version: "1".into() };
    let mut peer = PeerClient::connect("127.0.0.1:7300", options.clone()).unwrap();
    assert_eq!(peer.options().node_id, NodeId("me".into()));
    assert_eq!(peer.options().version, "1");
    match peer.next_event() {
        Some(Ok(ClientEvent::PeerFrame(frame))) => {
            assert_eq!(frame, PeerFrame::Pong { nonce: "0".into() })
        }
        other => panic!("expected a frame, got {:?}", other),
    }
    assert!(peer.send_frame(PeerFrame::Ping { nonce: "1".into() }).is_ok());
    let mut telnet = TelnetClient::connect("127.0.0.1:7300", TelnetOptions::default()).unwrap();
    match telnet.next_event() {
        Some(Ok(ClientEvent::UserLine(line))) => assert_eq!(line, ServerLine::Message("ok".into())),
        other => panic!("expected a line, got {:?}", other),
    }
    assert!(telnet.send_command(UserCommand::Show(ShowCommand::Dx)).is_ok());
    assert!(ClientHandle.send_command(UserCommand::Heartbeat).is_ok());
    assert!(ClientHandle.send_frame(PeerFrame::Pong { nonce: "1".into() }).is_ok());
    assert_eq!(ClientError::Connection.message(), "connection failed");
    let io = std::io::Error::new(std::io::ErrorKind::Other, "boom");
    assert_eq!(ClientError::Io(io).message(), "io error: boom");
    let copy = TelnetOptions { callsign: Some(Callsign::parse_loose("k1abc").unwrap()), password: None }.clone();
    assert_eq!(copy.callsign.unwrap().as_str(), "K1ABC");
}

#[test]
fn a_spot_line_has_nine_fields() {
    let line = format!(
        "SPOT|{}|1700000000|14074000|K1ABC|N0CALL|x|node-a|2|extra",
        "01".repeat(32)
    );
    assert!(PeerFrame::parse(&line).is_err());
    assert_eq!(PeerFrame::parse(&line), Err(PeerParseError::Invalid("field count")));
    let line = format!("SPOT|{}|1700000000|14074000|K1ABC|N0CALL|x|node-a|2", "01".repeat(32));
    assert!(PeerFrame::parse(&line).is_ok());
}

#[test]
fn an_absent_hop_is_a_missing_field() {
    let line = format!("SPOT|{}|1700000000|14074000|K1ABC|N0CALL|x|node-a", "01".repeat(32));
    assert!(matches!(PeerFrame::parse(&line), Err(PeerParseError::Missing(_))));
    assert_eq!(PeerFrame::parse(&line), Err(PeerParseError::Missing("hop")));
}

#[test]
fn a_spot_id_is_lower_case_hex() {
    let line = format!(
        "SPOT|{}|1700000000|14074000|K1ABC|N0CALL|x|node-a|2",
        "+1".repeat(32)
    );
    assert_eq!(PeerFrame::parse(&line), Err(PeerParseError::Invalid("spot id")));
    let line = format!(
        "SPOT|{}|1700000000|14074000|K1ABC|N0CALL|x|node-a|2",
        "AB".repeat(32)
    );
    assert_eq!(PeerFrame::parse(&line), Err(PeerParseError::Invalid("spot id")));
    let line = format!(
        "SPOT|{}|1700000000|14074000|K1ABC|N0CALL|x%7Cy|node-a|2",
        "ab".repeat(32)
    );
    match PeerFrame::parse(&line) {
        Ok(PeerFrame::Spot { spot }) => {
            assert_eq!(spot.spot_id, SpotId([0xab; 32]));
            assert_eq!(spot.comment, "x|y");
        }
        other => panic!("expected a spot, got {:?}", other),
    }
}

#[test]
fn spots_with_read_callsigns_cross_a_link() {
    for (dx, spotter, origin, comment) in [
        ("k1abc", " n0call ", Some("node-a"), "up 5 | 50% \\o/"),
        ("w1aw/p", "dl1abc", None, ""),
        ("stra\u{df}e", "\u{e9}t\u{e9}", Some("n\u{f8}de b"), "73 de \u{1F600}"),
    ] {
        let spot = Spot {
            spot_id: SpotId([0x5a; 32]),
            ts: Timestamp::from_unix_timestamp(1_700_000_000).unwrap(),
            freq: FrequencyHz(7_038_600),
            dx: Callsign::parse_loose(dx).unwrap(),
            spotter: Callsign::parse_loose(spotter).unwrap(),
            comment: comment.to_string(),
            origin: origin.map(|name| NodeId(name.to_string())),
            hop: 3,
        };
        assert!(spot.dx.is_canonical() && spot.spotter.is_canonical());
        let line = PeerFrame::Spot { spot: spot.clone() }.to_line();
        assert_eq!(PeerFrame::parse(&line), Ok(PeerFrame::Spot { spot }), "{:?}", line);
    }
}
