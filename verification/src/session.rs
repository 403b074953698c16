//! One user at the node, as a state machine: the greeting, and what the node
//! answers to each line. The caller owns the socket; it hands each line to
//! the session and sends what the session returns.

use vstd::prelude::*;
use vstd::string::StringExecFns;
use vstd::string::StringSliceAdditionalSpecFns;
use crate::cache::{newest_first, pushed, spot_views};
use crate::callsign::Callsign;
use crate::error::UserParseError;
use crate::filter::Filter;
use crate::ids::{be_bytes, blake3_digest, concat_parts, i64_be_bytes, twos_complement, u64_be_bytes, SpotId};
use crate::normalize::ascii_uppercase;
use crate::spot::{timestamp_in_range, Spot, SpotModel, Timestamp};
use crate::state::{AnnouncementModel, NodeState, SpotAnnouncement, CACHE_CAPACITY};
use crate::text::{lemma_trim_of_trimmed, trim};
use crate::user::{
    banner_text, format_banner, parse_command, parse_line, CommandModel, LineModel, ServerLine,
    ShowCommand, UserCommand,
};

verus! {

/// The number of spots that `SH/DX` shows.
pub const SHOWN_SPOTS: usize = 10;

/// The state of one user's session: the filter of the user, and the callsign
/// under which the user's spots are filed.
#[derive(Debug)]
pub struct UserSession {
    filter: Filter,
    callsign: Callsign,
}

/// What the caller is to do after a line of the user was handled.
#[derive(Debug)]
pub struct UserOutcome {
    /// The lines to send to the user, in their order.
    pub lines: Vec<ServerLine>,
    /// A spot that was stored, to tell the peer sessions of.
    pub announcement: Option<SpotAnnouncement>,
}

/// What handling a line does, as mathematical values.
pub struct UserStep {
    pub spots: Seq<SpotModel>,
    pub lines: Seq<LineModel>,
    pub announcement: Option<AnnouncementModel>,
}

/// The views of a sequence of lines.
pub open spec fn line_views(lines: Seq<ServerLine>) -> Seq<LineModel> {
    lines.map_values(|line: ServerLine| line@)
}

/// The lines that show the spots `spots`.
pub open spec fn spot_lines(spots: Seq<SpotModel>) -> Seq<LineModel> {
    spots.map_values(|spot: SpotModel| LineModel::Spot(spot))
}

/// The identifier of a spot minted for a user: the digest of the callsign
/// heard, the frequency and the second of the report.
pub open spec fn minted_id(dx: Seq<char>, frequency: u64, now: i64) -> Seq<u8> {
    blake3_digest(vstd::utf8::encode_utf8(dx) + be_bytes(frequency) + be_bytes(twos_complement(now)))
}

/// The spot minted for the user `spotter` of the node `node_id` at `now`.
pub open spec fn minted(
    node_id: Seq<char>,
    spotter: Seq<char>,
    dx: Seq<char>,
    frequency: u64,
    comment: Seq<char>,
    now: i64,
) -> SpotModel {
    SpotModel {
        spot_id: minted_id(dx, frequency, now),
        ts: now as int,
        freq: frequency,
        dx,
        spotter,
        comment,
        origin: Some(node_id),
        hop: 0,
    }
}

/// What the node does with a command of the user `spotter` at `now`.
pub open spec fn commanded(
    node_id: Seq<char>,
    spots: Seq<SpotModel>,
    spotter: Seq<char>,
    cmd: CommandModel,
    now: i64,
) -> UserStep {
    match cmd {
        CommandModel::Dx { dx, frequency, comment } => {
            let spot = minted(node_id, spotter, dx, frequency, comment, now);
            UserStep {
                spots: pushed(spots, CACHE_CAPACITY as nat, spot),
                lines: seq![LineModel::Spot(spot)],
                announcement: Some(AnnouncementModel { spot, source: None }),
            }
        },
        CommandModel::Show(ShowCommand::Dx) => UserStep {
            spots,
            lines: spot_lines(newest_first(spots, SHOWN_SPOTS as nat)),
            announcement: None,
        },
        CommandModel::Show(ShowCommand::Filters) => UserStep {
            spots,
            lines: seq![LineModel::Message("Filters: accepting all spots"@)],
            announcement: None,
        },
        CommandModel::Heartbeat => UserStep {
            spots,
            lines: seq![LineModel::Message("PONG"@)],
            announcement: None,
        },
        CommandModel::Raw(raw) => UserStep {
            spots,
            lines: seq![LineModel::Message("Unknown command: "@ + raw)],
            announcement: None,
        },
    }
}

/// What the node does with a line of the user `spotter` at `now`: a command
/// is carried out, a line that is none is answered with the reason, and a
/// prompt follows either way.
pub open spec fn answered(
    node_id: Seq<char>,
    spots: Seq<SpotModel>,
    spotter: Seq<char>,
    line: Seq<char>,
    now: i64,
) -> UserStep {
    match parse_command(line) {
        Ok(cmd) => {
            let step = commanded(node_id, spots, spotter, cmd, now);
            UserStep { lines: step.lines.push(LineModel::Prompt), ..step }
        },
        Err(e) => UserStep {
            spots,
            lines: seq![LineModel::Message("ERR: "@ + e.message_text()), LineModel::Prompt],
            announcement: None,
        },
    }
}

/// The news of an announcement, where there is one.
pub open spec fn news_view(news: Option<SpotAnnouncement>) -> Option<AnnouncementModel> {
    match news {
        Some(news) => Some(news@),
        None => None,
    }
}

/// Carries out a command of the user `callsign` at the moment `now`.
pub fn handle_command_at(
    state: &mut NodeState,
    filter: &Filter,
    callsign: &Callsign,
    cmd: UserCommand,
    now: Timestamp,
) -> (outcome: UserOutcome)
    requires
        old(state).wf(),
    ensures
        final(state).wf(),
        final(state).id() == old(state).id(),
        (UserStep {
            spots: final(state).spots(),
            lines: line_views(outcome.lines@),
            announcement: news_view(outcome.announcement),
        }) == commanded(old(state).id(), old(state).spots(), callsign@, cmd@, now@ as i64),
{
    let mut lines: Vec<ServerLine> = Vec::new();
    match cmd {
        UserCommand::Dx { dx, frequency, comment } => {
            let seconds = now.unix_timestamp();
            let freq_bytes = u64_be_bytes(frequency.0);
            let time_bytes = i64_be_bytes(seconds);
            let mut parts: Vec<&[u8]> = Vec::new();
            parts.push(dx.as_str().as_bytes());
            parts.push(freq_bytes.as_slice());
            parts.push(time_bytes.as_slice());
            let spot_id = SpotId::hash_components(parts.as_slice());
            proof {
                let p = parts@;
                assert(p.drop_last().drop_last().drop_last() =~= Seq::<&[u8]>::empty());
                assert(concat_parts(p.drop_last().drop_last().drop_last()) =~= Seq::<u8>::empty());
                assert(concat_parts(p.drop_last().drop_last()) =~= p[0]@);
                assert(concat_parts(p.drop_last()) =~= p[0]@ + p[1]@);
                assert(concat_parts(p) =~= p[0]@ + p[1]@ + p[2]@);
                assert(p[0]@ == vstd::utf8::encode_utf8(dx@));
            }
            let origin = Some(state.node_id().clone());
            let spot = Spot::new_local(
                spot_id,
                now,
                frequency,
                dx,
                callsign.clone(),
                comment,
                origin,
            );
            let news = state.insert(spot.clone());
            lines.push(ServerLine::Spot(spot));
            assert(line_views(lines@) =~= seq![LineModel::Spot(spot@)]);
            UserOutcome { lines, announcement: Some(news) }
        },
        UserCommand::Show(ShowCommand::Dx) => {
            let recent = state.recent(SHOWN_SPOTS);
            let mut i: usize = 0;
            while i < recent.len()
                invariant
                    i <= recent.len(),
                    lines@.len() <= i,
                    line_views(lines@) == spot_lines(spot_views(recent@).take(i as int)),
                decreases recent.len() - i,
            {
                let ghost before = line_views(lines@);
                if filter.matches(&recent[i]) {
                    let line = ServerLine::Spot(recent[i].clone());
                    lines.push(line);
                    assert(line_views(lines@) =~= before.push(line@));
                }
                assert(spot_lines(spot_views(recent@).take(i + 1)) =~= spot_lines(
                    spot_views(recent@).take(i as int),
                ).push(LineModel::Spot(recent@[i as int]@)));
                i += 1;
            }
            assert(spot_views(recent@).take(recent.len() as int) =~= spot_views(recent@));
            UserOutcome { lines, announcement: None }
        },
        UserCommand::Show(ShowCommand::Filters) => {
            lines.push(ServerLine::Message(filter.summary()));
            assert(line_views(lines@) =~= seq![LineModel::Message("Filters: accepting all spots"@)]);
            UserOutcome { lines, announcement: None }
        },
        UserCommand::Heartbeat => {
            lines.push(ServerLine::Message("PONG".to_owned()));
            assert(line_views(lines@) =~= seq![LineModel::Message("PONG"@)]);
            UserOutcome { lines, announcement: None }
        },
        UserCommand::Raw(raw) => {
            let mut text = "Unknown command: ".to_owned();
            text.append(raw.as_str());
            lines.push(ServerLine::Message(text));
            assert(line_views(lines@) =~= seq![LineModel::Message("Unknown command: "@ + raw@)]);
            UserOutcome { lines, announcement: None }
        },
    }
}

/// Carries out a command of the user `callsign`, at the moment at which it
/// is called.
pub fn handle_command(
    state: &mut NodeState,
    filter: &Filter,
    callsign: &Callsign,
    cmd: UserCommand,
) -> (outcome: UserOutcome)
    requires
        old(state).wf(),
    ensures
        final(state).wf(),
        final(state).id() == old(state).id(),
        exists|now: i64|
            timestamp_in_range(now as int) && (UserStep {
                spots: final(state).spots(),
                lines: line_views(outcome.lines@),
                announcement: news_view(outcome.announcement),
            }) == #[trigger] commanded(
                old(state).id(),
                old(state).spots(),
                callsign@,
                cmd@,
                now,
            ),
{
    let now = Timestamp::now_utc();
    let ghost cmd_view = cmd@;
    let ghost id = state.id();
    let ghost spots = state.spots();
    let outcome = handle_command_at(state, filter, callsign, cmd, now);
    assert((UserStep {
        spots: state.spots(),
        lines: line_views(outcome.lines@),
        announcement: news_view(outcome.announcement),
    }) == commanded(id, spots, callsign@, cmd_view, now@ as i64));
    outcome
}

impl UserSession {
    /// The callsign under which the user's spots are filed.
    pub closed spec fn spotter(&self) -> Seq<char> {
        self.callsign@
    }

    /// The session of a user who has just connected. Until a callsign is
    /// agreed, the user's spots are filed under `N0CALL`.
    pub fn new() -> (session: Self)
        ensures
            session.spotter() == "N0CALL"@,
    {
        proof {
            reveal_strlit("N0CALL");
            lemma_trim_of_trimmed("N0CALL"@);
            assert(ascii_uppercase("N0CALL"@) =~= "N0CALL"@);
        }
        match Callsign::parse_loose("N0CALL") {
            Ok(callsign) => UserSession { filter: Filter, callsign },
            Err(_) => {
                assert(false);
                vstd::pervasive::unreached()
            },
        }
    }

    /// The lines that greet the user: the banner with the node's name, then
    /// the prompt.
    pub fn greeting(&self, state: &NodeState) -> (lines: Vec<ServerLine>)
        ensures
            line_views(lines@) == seq![
                LineModel::Banner(banner_text(state.id())),
                LineModel::Prompt,
            ],
    {
        let mut lines: Vec<ServerLine> = Vec::new();
        lines.push(ServerLine::Banner(format_banner(state.node_id().0.as_str())));
        lines.push(ServerLine::Prompt);
        assert(line_views(lines@) =~= seq![
            LineModel::Banner(banner_text(state.id())),
            LineModel::Prompt,
        ]);
        lines
    }

    /// Handles a line of the user at the moment `now`.
    pub fn on_line_at(&mut self, state: &mut NodeState, line: &str, now: Timestamp) -> (outcome:
        UserOutcome)
        requires
            old(state).wf(),
        ensures
            final(state).wf(),
            final(state).id() == old(state).id(),
            final(self).spotter() == old(self).spotter(),
            (UserStep {
                spots: final(state).spots(),
                lines: line_views(outcome.lines@),
                announcement: news_view(outcome.announcement),
            }) == answered(
                old(state).id(),
                old(state).spots(),
                old(self).spotter(),
                line@,
                now@ as i64,
            ),
    {
        match parse_line(line) {
            Ok(cmd) => {
                let mut outcome = handle_command_at(state, &self.filter, &self.callsign, cmd, now);
                let ghost before = line_views(outcome.lines@);
                outcome.lines.push(ServerLine::Prompt);
                assert(line_views(outcome.lines@) =~= before.push(LineModel::Prompt));
                outcome
            },
            Err(e) => {
                let mut text = "ERR: ".to_owned();
                text.append(e.message().as_str());
                let mut lines: Vec<ServerLine> = Vec::new();
                lines.push(ServerLine::Message(text));
                lines.push(ServerLine::Prompt);
                assert(line_views(lines@) =~= seq![
                    LineModel::Message("ERR: "@ + e.message_text()),
                    LineModel::Prompt,
                ]);
                UserOutcome { lines, announcement: None }
            },
        }
    }

    /// Handles a line of the user, at the moment at which it is called.
    pub fn on_line(&mut self, state: &mut NodeState, line: &str) -> (outcome: UserOutcome)
        requires
            old(state).wf(),
        ensures
            final(state).wf(),
            final(state).id() == old(state).id(),
            final(self).spotter() == old(self).spotter(),
            exists|now: i64|
                timestamp_in_range(now as int) && (UserStep {
                    spots: final(state).spots(),
                    lines: line_views(outcome.lines@),
                    announcement: news_view(outcome.announcement),
                }) == #[trigger] answered(
                    old(state).id(),
                    old(state).spots(),
                    old(self).spotter(),
                    line@,
                    now,
                ),
    {
        let now = Timestamp::now_utc();
        let ghost id = state.id();
        let ghost spots = state.spots();
        let outcome = self.on_line_at(state, line, now);
        assert((UserStep {
            spots: state.spots(),
            lines: line_views(outcome.lines@),
            announcement: news_view(outcome.announcement),
        }) == answered(id, spots, self.spotter(), line@, now@ as i64));
        outcome
    }
}

} // verus!
