use dxcluster::callsign::Callsign;
use dxcluster::config::{NodeConfig, PeerOptions, PeerRetryPolicy, Span, UpstreamConfig, UpstreamMode};
use dxcluster::error::{PeerParseError, UserParseError};
use dxcluster::format::{banner, render_line, spot_user_line};
use dxcluster::frequency::FrequencyHz;
use dxcluster::ids::{NodeId, SpotId};
use dxcluster::node::Node;
use dxcluster::peer::{parse_spot_id, format_spot_id, PeerFrame};
use dxcluster::peer_session::{should_forward, BusAction, BusEvent, PeerSession, PeerSessionError};
use dxcluster::session::{handle_command, handle_command_at, UserSession};
use dxcluster::spot::{Spot, Timestamp};
use dxcluster::state::{NodeState, SpotAnnouncement};
use dxcluster::upstream::{backoff_delay, peer_upstreams, Connector};
use dxcluster::user::{
    format_banner, format_command, format_prompt, parse_dx_command, parse_line, ServerLine,
    ShowCommand, UserCommand,
};
use dxcluster::Filter;

fn make_spot(origin: &str, dx: &str, comment: &str) -> Spot {
    let ts = Timestamp::now_utc();
    let spot_id = SpotId::hash_components(&[
        origin.as_bytes(),
        dx.as_bytes(),
        comment.as_bytes(),
        &ts.unix_timestamp().to_be_bytes(),
    ]);
    Spot {
        spot_id,
        ts,
        freq: FrequencyHz(14_074_000),
        dx: Callsign::parse_loose(dx).expect("dx callsign"),
        spotter: Callsign::parse_loose("N0CALL").expect("spotter callsign"),
        comment: comment.to_string(),
        origin: Some(NodeId(origin.to_string())),
        hop: 0,
    }
}

fn options_with_token(token: &str) -> PeerOptions {
    PeerOptions {
        expected_auth_token: Some(token.to_string()),
        ..PeerOptions::default()
    }
}

fn lines_of(frames: &[PeerFrame]) -> Vec<String> {
    frames.iter().map(|f| f.to_line()).collect()
}

fn rendered(lines: &[ServerLine]) -> Vec<String> {
    lines.iter().map(render_line).collect()
}

fn has_dx(state: &NodeState, dx: &str) -> bool {
    state.recent(20).iter().any(|spot| spot.dx.as_str() == dx)
}

/// Carries what node `from` sends over an open link into node `to`.
fn deliver(lines: &[String], session: &mut PeerSession, to: &mut NodeState) -> Vec<SpotAnnouncement> {
    let mut news = Vec::new();
    for line in lines {
        let outcome = session.on_line(to, line).expect("link stays open");
        if let Some(a) = outcome.announcement {
            news.push(a);
        }
    }
    news
}

#[test]
fn two_node_propagation() {
    let mut a = NodeState::new(NodeId("node-a".into()));
    let mut b = NodeState::new(NodeId("node-b".into()));
    let mut a_to_b = PeerSession::new(PeerOptions::default(), None);
    let mut b_to_a = PeerSession::new(PeerOptions::default(), None);
    let opening_a = lines_of(&a_to_b.opening_frames(&a));
    let opening_b = lines_of(&b_to_a.opening_frames(&b));
    assert_eq!(opening_a, ["HELLO|node-a|1", "CAPS|spots-v1,heartbeat"]);
    deliver(&opening_a, &mut b_to_a, &mut b);
    deliver(&opening_b, &mut a_to_b, &mut a);
    assert_eq!(a_to_b.remote_id(), &Some(NodeId("node-b".into())));
    assert_eq!(b_to_a.remote_id(), &Some(NodeId("node-a".into())));

    let news = a.insert(make_spot("node-a", "K1ABC", "from A"));
    assert!(news.source.is_none());
    let frame = a_to_b.forward(&news).expect("a local spot is passed on");
    let arrived = deliver(&[frame.to_line()], &mut b_to_a, &mut b);
    assert!(has_dx(&b, "K1ABC"));
    assert_eq!(b.recent(1)[0].hop, 1);
    assert_eq!(b.recent(1)[0].origin, Some(NodeId("node-a".into())));
    assert_eq!(arrived.len(), 1);
    assert_eq!(arrived[0].source, Some(NodeId("node-a".into())));
    assert!(b_to_a.forward(&arrived[0]).is_none());
}

#[test]
fn reverse_propagation() {
    let mut a = NodeState::new(NodeId("node-a".into()));
    let mut b = NodeState::new(NodeId("node-b".into()));
    let mut a_to_b = PeerSession::new(PeerOptions::default(), None);
    let mut b_to_a = PeerSession::new(PeerOptions::default(), None);
    let opening_a = lines_of(&a_to_b.opening_frames(&a));
    let opening_b = lines_of(&b_to_a.opening_frames(&b));
    deliver(&opening_a, &mut b_to_a, &mut b);
    deliver(&opening_b, &mut a_to_b, &mut a);

    let news = b.insert(make_spot("node-b", "W1AW", "from B"));
    let frame = b_to_a.forward(&news).expect("a local spot is passed on");
    let arrived = deliver(&[frame.to_line()], &mut a_to_b, &mut a);
    assert!(has_dx(&a, "W1AW"));
    assert!(!has_dx(&b, "K1ABC"));
    assert_eq!(arrived[0].source, Some(NodeId("node-b".into())));
    assert!(a_to_b.forward(&arrived[0]).is_none());
}

#[test]
fn cached_spots_are_replayed_when_a_link_opens() {
    let mut a = NodeState::new(NodeId("node-a".into()));
    for i in 0..60 {
        a.insert(make_spot("node-a", &format!("K{}ABC", i), "old"));
    }
    let session = PeerSession::new(PeerOptions::default(), Some("s3cret".into()));
    let frames = session.opening_frames(&a);
    assert_eq!(frames.len(), 3 + 50);
    assert_eq!(
        frames[0],
        PeerFrame::Hello { node_id: NodeId("node-a".into()), version: "1".into() }
    );
    assert_eq!(
        frames[1],
        PeerFrame::Capabilities { values: vec!["spots-v1".into(), "heartbeat".into()] }
    );
    assert_eq!(frames[2], PeerFrame::Auth { token: "s3cret".into() });
    match (&frames[3], &frames[52]) {
        (PeerFrame::Spot { spot: newest }, PeerFrame::Spot { spot: oldest }) => {
            assert_eq!(newest.dx.as_str(), "K59ABC");
            assert_eq!(newest.hop, 1);
            assert_eq!(oldest.dx.as_str(), "K10ABC");
            assert_eq!(oldest.hop, 1);
        }
        other => panic!("expected spots, got {:?}", other),
    }
    assert_eq!(a.recent(1)[0].hop, 0);
}

#[test]
fn loop_suppression() {
    let mut state = NodeState::new(NodeId("node-a".into()));
    let mut from_p = PeerSession::new(PeerOptions::default(), None);
    let mut to_q = PeerSession::new(PeerOptions::default(), None);
    from_p.on_line(&mut state, "HELLO|P|1").unwrap();
    to_q.on_line(&mut state, "HELLO|Q|1").unwrap();
    let line = PeerFrame::Spot { spot: make_spot("far", "K1ABC", "x") }.to_line();
    let outcome = from_p.on_line(&mut state, &line).unwrap();
    let news = outcome.announcement.expect("the spot was stored");
    assert_eq!(news.source, Some(NodeId("P".into())));
    assert!(from_p.forward(&news).is_none());
    assert!(!should_forward(from_p.remote_id(), &news));
    assert!(should_forward(to_q.remote_id(), &news));
    assert!(should_forward(&None, &news));
    match to_q.forward(&news) {
        Some(PeerFrame::Spot { spot }) => assert_eq!(spot.dx.as_str(), "K1ABC"),
        other => panic!("expected a spot, got {:?}", other),
    }
    let local = state.insert(make_spot("node-a", "W1AW", "y"));
    assert!(from_p.forward(&local).is_some());
}

#[test]
fn hop_monotonicity() {
    let mut state = NodeState::new(NodeId("node-a".into()));
    let mut from_p = PeerSession::new(PeerOptions::default(), None);
    let mut to_q = PeerSession::new(PeerOptions::default(), None);
    from_p.on_line(&mut state, "HELLO|P|1").unwrap();
    to_q.on_line(&mut state, "HELLO|Q|1").unwrap();
    for hop in [0u32, 1, 7, u32::MAX - 1, u32::MAX] {
        let mut spot = make_spot("far", "K1ABC", "x");
        spot.hop = hop;
        let line = PeerFrame::Spot { spot }.to_line();
        let news = from_p.on_line(&mut state, &line).unwrap().announcement.unwrap();
        assert_eq!(news.spot.hop, hop);
        match to_q.forward(&news) {
            Some(PeerFrame::Spot { spot }) => {
                assert_eq!(spot.hop, hop.saturating_add(1));
                assert!(spot.hop >= hop);
            }
            other => panic!("expected a spot, got {:?}", other),
        }
    }
}

#[test]
fn a_spot_without_origin_gets_the_peer_as_origin() {
    let mut state = NodeState::new(NodeId("node-a".into()));
    let mut session = PeerSession::new(PeerOptions::default(), None);
    let mut spot = make_spot("far", "K1ABC", "x");
    spot.origin = None;
    let line = PeerFrame::Spot { spot }.to_line();
    let news = session.on_line(&mut state, &line).unwrap().announcement.unwrap();
    assert_eq!(news.spot.origin, None);
    assert_eq!(news.source, None);
    session.on_line(&mut state, "HELLO|P|2").unwrap();
    let news = session.on_line(&mut state, &line).unwrap().announcement.unwrap();
    assert_eq!(news.spot.origin, Some(NodeId("P".into())));
    assert_eq!(state.recent(1)[0].origin, Some(NodeId("P".into())));
    let kept = PeerFrame::Spot { spot: make_spot("far", "W1AW", "y") }.to_line();
    let news = session.on_line(&mut state, &kept).unwrap().announcement.unwrap();
    assert_eq!(news.spot.origin, Some(NodeId("far".into())));
}

#[test]
fn auth_gating() {
    let mut state = NodeState::new(NodeId("node-a".into()));
    let mut session = PeerSession::new(options_with_token("s3cret"), None);
    assert!(!session.is_authenticated());
    assert!(PeerSession::new(PeerOptions::default(), None).is_authenticated());
    session.on_line(&mut state, "HELLO|P|1").unwrap();
    session.on_line(&mut state, "CAPS|spots-v1").unwrap();
    session.on_line(&mut state, "HEARTBEAT|1").unwrap();
    assert!(!session.is_authenticated());
    let local = state.insert(make_spot("node-a", "W1AW", "y"));
    assert!(session.forward(&local).is_none());
    let line = PeerFrame::Spot { spot: make_spot("far", "K1ABC", "x") }.to_line();
    assert_eq!(session.on_line(&mut state, &line).unwrap_err(), PeerSessionError::AuthRequired);
    assert!(!has_dx(&state, "K1ABC"));
    session.on_line(&mut state, "AUTH|s3cret").unwrap();
    assert!(session.is_authenticated());
    assert!(session.forward(&local).is_some());
    session.on_line(&mut state, &line).unwrap();
    assert!(has_dx(&state, "K1ABC"));
}

#[test]
fn auth_reject() {
    let mut state = NodeState::new(NodeId("node-a".into()));
    let mut session = PeerSession::new(options_with_token("s3cret"), None);
    assert_eq!(session.on_line(&mut state, "AUTH|bad").unwrap_err(), PeerSessionError::AuthFailed);
    assert!(!session.is_authenticated());
    let line = PeerFrame::Spot { spot: make_spot("far", "K1ABC", "x") }.to_line();
    assert_eq!(session.on_line(&mut state, &line).unwrap_err(), PeerSessionError::AuthRequired);
    assert!(state.recent(20).is_empty());
    assert_eq!(PeerSessionError::AuthFailed.message(), "auth failed");
    assert_eq!(PeerSessionError::AuthRequired.message(), "auth required");
    let mut open = PeerSession::new(PeerOptions::default(), None);
    assert!(open.on_line(&mut state, "AUTH|anything").is_ok());
}

#[test]
fn peers_are_answered_and_bad_lines_passed_over() {
    let mut state = NodeState::new(NodeId("node-a".into()));
    let mut session = PeerSession::new(PeerOptions::default(), None);
    let outcome = session.on_line(&mut state, "PING|abc\n").unwrap();
    assert_eq!(outcome.reply, Some(PeerFrame::Pong { nonce: "abc".into() }));
    assert!(outcome.announcement.is_none());
    for line in ["", "   ", "BOGUS|1", "SPOT|zz", "AUTH|", "PONG|abc", "HEARTBEAT|9", "CAPS|"] {
        let outcome = session.on_line(&mut state, line).unwrap();
        assert!(outcome.reply.is_none(), "{:?}", line);
        assert!(outcome.announcement.is_none(), "{:?}", line);
    }
    assert!(state.recent(1).is_empty());
    assert_eq!(session.remote_id(), &None);
    let outcome = session
        .handle_frame(&mut state, PeerFrame::Ping { nonce: "7".into() })
        .unwrap();
    assert_eq!(outcome.reply, Some(PeerFrame::Pong { nonce: "7".into() }));
}

#[test]
fn heartbeats_are_numbered() {
    let mut session = PeerSession::new(PeerOptions::default(), None);
    assert_eq!(session.heartbeat_frame().to_line(), "HEARTBEAT|1");
    assert_eq!(session.heartbeat_frame().to_line(), "HEARTBEAT|2");
    assert_eq!(session.heartbeat_frame(), PeerFrame::Heartbeat { nonce: "3".into() });
    assert_eq!(session.heartbeat_interval(), Span::from_secs(10));
    let fast = PeerOptions { heartbeat_interval: Span::from_millis(200), ..PeerOptions::default() };
    assert_eq!(PeerSession::new(fast, None).heartbeat_interval(), Span::from_secs(1));
    let slow = PeerOptions { heartbeat_interval: Span::from_secs(90), ..PeerOptions::default() };
    assert_eq!(PeerSession::new(slow, None).heartbeat_interval(), Span::from_secs(90));
}

#[test]
fn backoff_schedule() {
    let retry = PeerRetryPolicy::default();
    let secs: Vec<u64> = (0..9).map(|n| backoff_delay(&retry, n).as_secs()).collect();
    assert_eq!(secs, [1, 1, 2, 4, 8, 16, 30, 30, 30]);
    assert_eq!(backoff_delay(&retry, usize::MAX), Span::from_secs(30));
    let quick = PeerRetryPolicy { base_delay: Span::from_millis(50), max_delay: Span::from_millis(200) };
    let nanos: Vec<u128> = (0..6).map(|n| backoff_delay(&quick, n).as_nanos()).collect();
    assert_eq!(
        nanos,
        [50_000_000, 50_000_000, 100_000_000, 200_000_000, 200_000_000, 200_000_000]
    );
    let odd = PeerRetryPolicy { base_delay: Span::from_secs(40), max_delay: Span::from_secs(30) };
    assert_eq!(backoff_delay(&odd, 0), Span::from_secs(40));
    assert_eq!(backoff_delay(&odd, 1), Span::from_secs(30));
    let none = PeerRetryPolicy { base_delay: Span::from_nanos(0), max_delay: Span::from_secs(30) };
    assert_eq!(backoff_delay(&none, usize::MAX), Span::from_nanos(0));
    let tiny = PeerRetryPolicy { base_delay: Span::from_nanos(1), max_delay: Span::from_nanos(u128::MAX) };
    assert_eq!(backoff_delay(&tiny, 34).as_nanos(), 1u128 << 33);
    assert_eq!(backoff_delay(&tiny, 128).as_nanos(), 1u128 << 127);
    assert_eq!(backoff_delay(&tiny, 129).as_nanos(), u128::MAX);
}

#[test]
fn a_connector_counts_failures_since_the_last_success() {
    let mut connector = Connector::new(PeerRetryPolicy::default());
    assert_eq!(connector.next_delay(), Span::from_secs(1));
    connector.connect_failed();
    assert_eq!(connector.next_delay(), Span::from_secs(1));
    connector.connect_failed();
    assert_eq!(connector.next_delay(), Span::from_secs(2));
    connector.connect_failed();
    assert_eq!(connector.next_delay(), Span::from_secs(4));
    connector.connected();
    assert_eq!(connector.next_delay(), Span::from_secs(1));
    connector.connect_failed();
    assert_eq!(connector.next_delay(), Span::from_secs(1));
}

fn upstream(addr: &str, mode: UpstreamMode) -> UpstreamConfig {
    UpstreamConfig { addr: addr.to_string(), mode, login_callsign: None, auth_token: None }
}

#[test]
fn only_peer_upstreams_are_dialled() {
    let configs = [
        upstream("a:1", UpstreamMode::Peer),
        upstream("b:2", UpstreamMode::Telnet),
        upstream("c:3", UpstreamMode::Peer),
    ];
    let addrs: Vec<String> = peer_upstreams(&configs).into_iter().map(|c| c.addr).collect();
    assert_eq!(addrs, ["a:1", "c:3"]);
    assert!(peer_upstreams(&[]).is_empty());
    let config = NodeConfig {
        user_listen: "127.0.0.1:7300".into(),
        peer_listen: None,
        node_id: NodeId("node-a".into()),
        peer_options: PeerOptions::default(),
        peer_retry: PeerRetryPolicy::default(),
    };
    let builder = Node::builder(config)
        .with_upstream(upstream("b:2", UpstreamMode::Telnet))
        .with_upstream(upstream("c:3", UpstreamMode::Peer));
    assert_eq!(builder.config().user_listen, "127.0.0.1:7300");
    let node = builder.build();
    assert_eq!(node.state().node_id(), &NodeId("node-a".into()));
    let (state, upstreams) = node.into_parts();
    assert!(state.recent(1).is_empty());
    assert_eq!(upstreams.len(), 1);
    assert_eq!(upstreams[0].addr, "c:3");
}

#[test]
fn user_mint_and_query() {
    let mut state = NodeState::new(NodeId("test-node".into()));
    let mut first = UserSession::new();
    assert_eq!(rendered(&first.greeting(&state)), ["Welcome to test-node DX cluster", ">"]);
    let outcome = first.on_line(&mut state, "DX K1ABC 14074 first spot\n");
    let lines = rendered(&outcome.lines);
    assert_eq!(lines, ["DX de N0CALL: 14074 K1ABC first spot", ">"]);
    assert!(lines[0].contains("DX de") && lines[0].contains("K1ABC"));
    let news = outcome.announcement.expect("the spot was stored");
    assert!(news.source.is_none());
    assert_eq!(news.spot.origin, Some(NodeId("test-node".into())));
    assert_eq!(news.spot.hop, 0);
    assert_eq!(news.spot.freq, FrequencyHz(14_074_000));

    let mut second = UserSession::new();
    let outcome = second.on_line(&mut state, "SH/DX\n");
    let lines = rendered(&outcome.lines);
    assert_eq!(lines.len(), 2);
    assert!(lines[0].contains("K1ABC") && lines[0].contains("first spot"));
    assert_eq!(lines[1], ">");
    assert!(outcome.announcement.is_none());
}

#[test]
fn a_minted_spot_is_identified_by_station_frequency_and_second() {
    let mut state = NodeState::new(NodeId("test-node".into()));
    let now = Timestamp::from_unix_timestamp(1_700_000_000).unwrap();
    let me = Callsign::parse_loose("w1aw").unwrap();
    let cmd = parse_line("dx k1abc 14074.5 up 2").unwrap();
    let outcome = handle_command_at(&mut state, &Filter, &me, cmd, now);
    let spot = &state.recent(1)[0];
    let mut bytes = b"K1ABC".to_vec();
    bytes.extend_from_slice(&14_074_500u64.to_be_bytes());
    bytes.extend_from_slice(&1_700_000_000i64.to_be_bytes());
    assert_eq!(&spot.spot_id.0, blake3::hash(&bytes).as_bytes());
    assert_eq!(spot.ts, now);
    assert_eq!(spot.spotter.as_str(), "W1AW");
    assert_eq!(spot.comment, "up 2");
    assert_eq!(outcome.lines, vec![ServerLine::Spot(spot.clone())]);
    let mut session = UserSession::new();
    let outcome = session.on_line_at(&mut state, "DX W1AW 7030\n", now);
    assert_eq!(rendered(&outcome.lines), ["DX de N0CALL: 7030 W1AW ", ">"]);
    let live = handle_command(&mut state, &Filter, &me, UserCommand::Heartbeat);
    assert_eq!(rendered(&live.lines), ["PONG"]);
}

#[test]
fn heartbeat() {
    let mut state = NodeState::new(NodeId("test-node".into()));
    let mut session = UserSession::new();
    let outcome = session.on_line(&mut state, "PING\n");
    let lines = rendered(&outcome.lines);
    assert!(lines[0].contains("PONG"));
    assert_eq!(lines, ["PONG", ">"]);
    let outcome = session.on_line(&mut state, "heartbeat");
    assert_eq!(rendered(&outcome.lines), ["PONG", ">"]);
    let outcome = session.on_line(&mut state, "SH/FILTERS\n");
    let lines = rendered(&outcome.lines);
    assert!(lines[0].contains("Filters"));
    assert_eq!(lines, ["Filters: accepting all spots", ">"]);
    let outcome = session.on_line(&mut state, "show/filters\n");
    assert_eq!(rendered(&outcome.lines), ["Filters: accepting all spots", ">"]);
}

#[test]
fn users_are_told_what_was_wrong() {
    let mut state = NodeState::new(NodeId("test-node".into()));
    let mut session = UserSession::new();
    let cases = [
        ("\n", "ERR: line was empty"),
        ("DX\n", "ERR: DX command missing callsign"),
        ("dx k1abc\n", "ERR: DX command missing frequency"),
        ("DX K1ABC abc\n", "ERR: invalid frequency: frequency value is missing"),
        ("DX K1ABC -5\n", "ERR: invalid frequency: frequency string is invalid"),
        ("HELP\n", "Unknown command: HELP"),
        ("  sh/dxx  \n", "Unknown command: sh/dxx"),
        ("D\u{e9}\n", "Unknown command: D\u{e9}"),
    ];
    for (line, answer) in cases {
        let outcome = session.on_line(&mut state, line);
        assert_eq!(rendered(&outcome.lines), [answer, ">"], "{:?}", line);
        assert!(outcome.announcement.is_none());
    }
    assert!(state.recent(1).is_empty());
    let outcome = session.on_line(&mut state, "SH/DX");
    assert_eq!(rendered(&outcome.lines), [">"]);
}

#[test]
fn show_dx_lists_the_ten_newest() {
    let mut state = NodeState::new(NodeId("test-node".into()));
    let mut session = UserSession::new();
    for i in 0..12 {
        session.on_line(&mut state, &format!("DX K{}ABC 7000 n{}", i, i));
    }
    let outcome = session.on_line(&mut state, "sh/dx");
    let lines = rendered(&outcome.lines);
    assert_eq!(lines.len(), 11);
    assert_eq!(lines[0], "DX de N0CALL: 7000 K11ABC n11");
    assert_eq!(lines[9], "DX de N0CALL: 7000 K2ABC n2");
    assert_eq!(lines[10], ">");
}

#[test]
fn user_lines_are_read() {
    assert_eq!(parse_line(""), Err(UserParseError::Empty));
    assert_eq!(parse_line(" \t"), Err(UserParseError::Empty));
    assert_eq!(parse_line("DX"), Err(UserParseError::MissingCallsign));
    assert_eq!(parse_line("DX K1ABC"), Err(UserParseError::MissingFrequency));
    assert_eq!(parse_dx_command(""), Err(UserParseError::MissingCallsign));
    assert_eq!(parse_dx_command(" k1abc "), Err(UserParseError::MissingFrequency));
    assert_eq!(parse_line("Sh/Dx"), Ok(UserCommand::Show(ShowCommand::Dx)));
    assert_eq!(parse_line("SHOW/FILTERS"), Ok(UserCommand::Show(ShowCommand::Filters)));
    assert_eq!(parse_line("HeartBeat\r\n"), Ok(UserCommand::Heartbeat));
    assert_eq!(parse_line(" what? "), Ok(UserCommand::Raw("what?".into())));
    assert_eq!(parse_line("SHOW/DX"), Ok(UserCommand::Raw("SHOW/DX".into())));
    let expected = UserCommand::Dx {
        dx: Callsign::parse_loose("K1ABC").unwrap(),
        frequency: FrequencyHz(14_074_000),
        comment: "cq  test".replace("  ", " "),
    };
    assert_eq!(parse_line("  dx k1abc 14074kHz   cq \t test  "), Ok(expected.clone()));
    assert_eq!(parse_line("dxk1abc 14074 cq test"), Ok(expected.clone()));
    assert_eq!(parse_dx_command(" K1ABC 14074 cq\ntest"), Ok(expected));
    assert_eq!(UserParseError::Unknown.message(), "unrecognized command");
    assert_eq!(
        UserParseError::InvalidCallsign(dxcluster::CallsignError::Empty).message(),
        "invalid callsign: callsign is empty"
    );
}

#[test]
fn user_command_round_trip() {
    let commands = [
        UserCommand::Dx {
            dx: Callsign::parse_loose("W1AW/P").unwrap(),
            frequency: FrequencyHz(7_038_060),
            comment: "wspr -12 dB".into(),
        },
        UserCommand::Dx {
            dx: Callsign::parse_loose("K1ABC").unwrap(),
            frequency: FrequencyHz(u64::MAX),
            comment: String::new(),
        },
        UserCommand::Show(ShowCommand::Dx),
        UserCommand::Show(ShowCommand::Filters),
        UserCommand::Heartbeat,
    ];
    for cmd in commands {
        assert!(cmd.is_line_safe(), "{:?}", cmd);
        assert_eq!(parse_line(&format_command(&cmd)), Ok(cmd.clone()));
    }
    assert_eq!(format_command(&UserCommand::Show(ShowCommand::Dx)), "SH/DX");
    assert_eq!(format_command(&UserCommand::Show(ShowCommand::Filters)), "SH/FILTERS");
    assert_eq!(format_command(&UserCommand::Heartbeat), "PING");
    assert_eq!(format_command(&UserCommand::Raw("hello there".into())), "hello there");
    let untidy = UserCommand::Dx {
        dx: Callsign::parse_loose("K1ABC").unwrap(),
        frequency: FrequencyHz(7_000_000),
        comment: " two  spaces".into(),
    };
    assert!(!untidy.is_line_safe());
    assert_eq!(format_command(&untidy), "DX K1ABC 7000  two  spaces");
    assert!(!UserCommand::Raw("x".into()).is_line_safe());
}

#[test]
fn lines_for_users_are_worded() {
    assert_eq!(format_banner("node-a"), "Welcome to node-a DX cluster");
    assert_eq!(banner("node-a"), "Welcome to node-a DX cluster");
    assert_eq!(format_prompt(), ">");
    let mut spot = make_spot("node-a", "K1ABC", "cq cq");
    spot.freq = FrequencyHz(14_074_500);
    assert_eq!(spot_user_line(&spot), "DX de N0CALL: 14074.500 K1ABC cq cq");
    assert_eq!(render_line(&ServerLine::Banner("hi".into())), "hi");
    assert_eq!(render_line(&ServerLine::Prompt), ">");
    assert_eq!(render_line(&ServerLine::Message("PONG".into())), "PONG");
    assert_eq!(render_line(&ServerLine::Spot(spot.clone())), spot_user_line(&spot));
}

#[test]
fn node_state_announces_each_insert_once() {
    let mut state = NodeState::new(NodeId("node-a".into()));
    assert_eq!(state.node_id(), &NodeId("node-a".into()));
    let spot = make_spot("node-a", "K1ABC", "x");
    let news = state.insert_with_source(spot.clone(), Some(NodeId("P".into())));
    assert_eq!(news.spot, spot);
    assert_eq!(news.source, Some(NodeId("P".into())));
    assert_eq!(news.clone().spot, spot);
    assert_eq!(state.recent(5), vec![spot.clone()]);
    for i in 0..300 {
        state.insert(make_spot("node-a", &format!("K{}X", i), "y"));
    }
    assert_eq!(state.recent(1000).len(), 256);
    assert_eq!(state.recent(1)[0].dx.as_str(), "K299X");
}

#[test]
fn spot_ids_are_written_in_hex() {
    let id = SpotId([0xab; 32]);
    assert_eq!(format_spot_id(&id), "ab".repeat(32));
    assert_eq!(parse_spot_id(&"ab".repeat(32)), Ok(id));
    assert_eq!(parse_spot_id(&"AB".repeat(32)), Err(PeerParseError::Invalid("spot id")));
    assert_eq!(parse_spot_id(&"aB".repeat(32)), Err(PeerParseError::Invalid("spot id")));
    let mut bytes = [0u8; 32];
    for (i, b) in bytes.iter_mut().enumerate() {
        *b = (i * 8 + 3) as u8;
    }
    let text = format_spot_id(&SpotId(bytes));
    assert_eq!(text.len(), 64);
    assert_eq!(text, bytes.iter().map(|b| format!("{:02x}", b)).collect::<String>());
    assert_eq!(parse_spot_id(&text), Ok(SpotId(bytes)));
    for bad in [
        "",
        "ab",
        &"ab".repeat(33),
        &"zz".repeat(32),
        &format!("+f{}", "00".repeat(31)),
        &format!("-f{}", "00".repeat(31)),
        &format!(" f{}", "00".repeat(31)),
        &"\u{e9}".repeat(32),
    ] {
        assert_eq!(parse_spot_id(bad), Err(PeerParseError::Invalid("spot id")), "{:?}", bad);
    }
}

#[test]
fn a_lagging_session_goes_on() {
    let mut state = NodeState::new(NodeId("node-a".into()));
    let mut session = PeerSession::new(PeerOptions::default(), None);
    session.on_line(&mut state, "HELLO|P|1").unwrap();
    assert!(matches!(session.on_bus_event(&BusEvent::Lagged), BusAction::Skip));
    assert!(matches!(session.on_bus_event(&BusEvent::Closed), BusAction::Stop));
    let local = state.insert(make_spot("node-a", "W1AW", "y"));
    match session.on_bus_event(&BusEvent::Announcement(local)) {
        BusAction::Send(PeerFrame::Spot { spot }) => assert_eq!(spot.hop, 1),
        other => panic!("expected a spot to send, got {:?}", other),
    }
    let echoed = state.insert_with_source(make_spot("far", "K1ABC", "x"), Some(NodeId("P".into())));
    assert!(matches!(session.on_bus_event(&BusEvent::Announcement(echoed)), BusAction::Skip));
}

#[test]
fn commands_with_read_callsigns_are_read_back() {
    for (dx, hz, comment) in [
        ("k1abc", 14_074_000u64, "cq dx"),
        ("w1aw/p", 1_000_000_000_000, ""),
        ("9a1a", 1, "one"),
        ("stra\u{df}e", 7_038_600, "gr\u{fc}\u{df}e aus K\u{f6}ln"),
    ] {
        let cmd = UserCommand::Dx {
            dx: Callsign::parse_loose(dx).unwrap(),
            frequency: FrequencyHz(hz),
            comment: comment.to_string(),
        };
        assert!(cmd.is_line_safe());
        let line = format_command(&cmd);
        assert_eq!(parse_line(&line), Ok(cmd), "{:?}", line);
    }
}
