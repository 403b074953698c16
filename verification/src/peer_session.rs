//! One link to a peer, as a state machine: what the node sends when the link
//! opens, what it does with each line that the peer sends, which stored
//! spots it passes on, and when it sends a heartbeat. The caller owns the
//! socket and the timers; it hands each event to the session and carries out
//! what the session returns.

use vstd::prelude::*;
use crate::cache::{newest_first, pushed, spot_views};
use crate::config::{clone_text, text_view, PeerOptions, PeerOptionsModel, Span, NANOS_PER_SECOND};
use crate::error::PeerParseError;
use crate::ids::NodeId;
use crate::number::{decimal_digits, push_u64};
use crate::peer::{clone_strings, parse_frame, string_views, FrameModel, PeerFrame};
use crate::spot::{clone_node, node_view, Spot, SpotModel};
use crate::state::{AnnouncementModel, NodeState, SpotAnnouncement, CACHE_CAPACITY};
use crate::text::string_of;

verus! {

/// The number of stored spots that a node sends when a link opens.
pub const BOOTSTRAP_SPOTS: usize = 50;

/// Why a session ends: the peer was not let in.
#[derive(Debug, Clone, Copy, PartialEq, Eq)]
pub enum PeerSessionError {
    /// The peer presented a token other than the expected one.
    AuthFailed,
    /// The peer sent a spot before it presented the expected token.
    AuthRequired,
}

impl PeerSessionError {
    /// The error in words, as a sequence of characters.
    pub open spec fn message_text(self) -> Seq<char> {
        match self {
            PeerSessionError::AuthFailed => "auth failed"@,
            PeerSessionError::AuthRequired => "auth required"@,
        }
    }

    /// The error in words.
    pub fn message(&self) -> (out: String)
        ensures
            out@ == self.message_text(),
    {
        match self {
            PeerSessionError::AuthFailed => "auth failed".to_owned(),
            PeerSessionError::AuthRequired => "auth required".to_owned(),
        }
    }
}

/// The state of one link to a peer.
#[derive(Debug)]
pub struct PeerSession {
    options: PeerOptions,
    auth_token: Option<String>,
    remote_id: Option<NodeId>,
    auth_ok: bool,
    heartbeats: u64,
}

/// The state of a link, as mathematical values.
pub struct SessionModel {
    pub options: PeerOptionsModel,
    /// The token that this node presents, where it has one.
    pub auth_token: Option<Seq<char>>,
    /// The name that the peer gave in its last `HELLO`.
    pub remote_id: Option<Seq<char>>,
    /// Whether the peer may send spots and is sent them.
    pub auth_ok: bool,
    /// The number of heartbeats sent.
    pub heartbeats: u64,
}

impl View for PeerSession {
    type V = SessionModel;

    closed spec fn view(&self) -> SessionModel {
        SessionModel {
            options: self.options@,
            auth_token: text_view(self.auth_token),
            remote_id: node_view(self.remote_id),
            auth_ok: self.auth_ok,
            heartbeats: self.heartbeats,
        }
    }
}

/// What the caller is to do after a line of the peer was handled.
#[derive(Debug)]
pub struct FrameOutcome {
    /// A frame to send to the peer.
    pub reply: Option<PeerFrame>,
    /// A spot that was stored, to tell the other sessions of.
    pub announcement: Option<SpotAnnouncement>,
}

/// What handling a frame does, as mathematical values: the session and the
/// stored spots afterwards, and what the caller is to do.
pub struct Step {
    pub session: SessionModel,
    pub spots: Seq<SpotModel>,
    pub reply: Option<FrameModel>,
    pub announcement: Option<AnnouncementModel>,
}

/// The frame of a reply, where there is one.
pub open spec fn frame_view(frame: Option<PeerFrame>) -> Option<FrameModel> {
    match frame {
        Some(frame) => Some(frame@),
        None => None,
    }
}

/// The news of an announcement, where there is one.
pub open spec fn announcement_view(news: Option<SpotAnnouncement>) -> Option<AnnouncementModel> {
    match news {
        Some(news) => Some(news@),
        None => None,
    }
}

/// A session as it is when the link opens: no name known of the peer, no
/// heartbeat sent, and the peer let in from the start exactly where no token
/// is expected of it.
pub open spec fn opened(options: PeerOptionsModel, auth_token: Option<Seq<char>>) -> SessionModel {
    SessionModel {
        options,
        auth_token,
        remote_id: None,
        auth_ok: options.expected_auth_token is None,
        heartbeats: 0,
    }
}

/// The spot as it is stored when it comes from the peer `remote_id`: one
/// without an origin gets the peer as its origin, where the peer is known.
pub open spec fn ingested(spot: SpotModel, remote_id: Option<Seq<char>>) -> SpotModel {
    if spot.origin is None && remote_id is Some {
        SpotModel { origin: remote_id, ..spot }
    } else {
        spot
    }
}

/// A step that changes nothing and asks nothing of the caller.
pub open spec fn idle(session: SessionModel, spots: Seq<SpotModel>) -> Step {
    Step { session, spots, reply: None, announcement: None }
}

/// What a session does with a frame of the peer.
pub open spec fn handled(session: SessionModel, spots: Seq<SpotModel>, frame: FrameModel) -> Result<
    Step,
    PeerSessionError,
> {
    match frame {
        FrameModel::Hello { node_id, version } => Ok(
            Step { session: SessionModel { remote_id: Some(node_id), ..session }, ..idle(session, spots) },
        ),
        FrameModel::Capabilities { values } => Ok(idle(session, spots)),
        FrameModel::Auth { token } => if session.options.expected_auth_token is Some
            && session.options.expected_auth_token->0 != token {
            Err(PeerSessionError::AuthFailed)
        } else {
            Ok(Step { session: SessionModel { auth_ok: true, ..session }, ..idle(session, spots) })
        },
        FrameModel::Spot { spot } => if !session.auth_ok {
            Err(PeerSessionError::AuthRequired)
        } else {
            let stored = ingested(spot, session.remote_id);
            Ok(
                Step {
                    session,
                    spots: pushed(spots, CACHE_CAPACITY as nat, stored),
                    reply: None,
                    announcement: Some(
                        AnnouncementModel { spot: stored, source: session.remote_id },
                    ),
                },
            )
        },
        FrameModel::Heartbeat { nonce } => Ok(idle(session, spots)),
        FrameModel::Ping { nonce } => Ok(
            Step { reply: Some(FrameModel::Pong { nonce }), ..idle(session, spots) },
        ),
        FrameModel::Pong { nonce } => Ok(idle(session, spots)),
    }
}

/// What a session does with a line of the peer: a line that is no frame is
/// passed over, any other is handled as the frame it stands for.
pub open spec fn received(session: SessionModel, spots: Seq<SpotModel>, line: Seq<char>) -> Result<
    Step,
    PeerSessionError,
> {
    match parse_frame(line) {
        Ok(frame) => handled(session, spots, frame),
        Err(_) => Ok(idle(session, spots)),
    }
}

/// Whether an announcement may go to the peer `remote_id`: not where it came
/// from that very peer.
pub open spec fn may_forward(remote_id: Option<Seq<char>>, news: AnnouncementModel) -> bool {
    !(news.source is Some && remote_id is Some && news.source->0 == remote_id->0)
}

/// The frame by which a session passes an announcement on, where it does:
/// the peer must be let in and must not be the source of the spot, and the
/// spot is sent with one more hop.
pub open spec fn forwarding(session: SessionModel, news: AnnouncementModel) -> Option<FrameModel> {
    if session.auth_ok && may_forward(session.remote_id, news) {
        Some(FrameModel::Spot { spot: news.spot.forwarded() })
    } else {
        None
    }
}

/// The frames that replay the stored spots `spots`, which come newest first:
/// each spot with one more hop.
pub open spec fn replay(spots: Seq<SpotModel>) -> Seq<FrameModel> {
    spots.map_values(|spot: SpotModel| FrameModel::Spot { spot: spot.forwarded() })
}

/// The frames that a node sends when a link opens: its name and version, its
/// capabilities, its token where it has one, and then its newest spots.
pub open spec fn opening(session: SessionModel, node_id: Seq<char>, spots: Seq<SpotModel>) -> Seq<
    FrameModel,
> {
    let greeting = seq![
        FrameModel::Hello { node_id, version: session.options.version },
        FrameModel::Capabilities { values: session.options.capabilities },
    ];
    let auth = match session.auth_token {
        Some(token) => seq![FrameModel::Auth { token }],
        None => Seq::<FrameModel>::empty(),
    };
    greeting + auth + replay(newest_first(spots, BOOTSTRAP_SPOTS as nat))
}

/// The views of a sequence of frames.
pub open spec fn frame_views(frames: Seq<PeerFrame>) -> Seq<FrameModel> {
    frames.map_values(|f: PeerFrame| f@)
}

/// The heartbeat count after one more heartbeat; it stops at its highest value.
pub open spec fn next_heartbeat(count: u64) -> u64 {
    if count < u64::MAX {
        (count + 1) as u64
    } else {
        u64::MAX
    }
}

/// Whether an announcement may go to the peer `remote_id`.
pub fn should_forward(remote_id: &Option<NodeId>, news: &SpotAnnouncement) -> (ok: bool)
    ensures
        ok == may_forward(node_view(*remote_id), news@),
{
    match (&news.source, remote_id) {
        (Some(source), Some(remote)) => !source.same(remote),
        _ => true,
    }
}

impl PeerSession {
    /// The session of a link that has just opened. `auth_token` is what this
    /// node presents to the peer.
    pub fn new(options: PeerOptions, auth_token: Option<String>) -> (session: Self)
        ensures
            session@ == opened(options@, text_view(auth_token)),
    {
        let auth_ok = options.expected_auth_token.is_none();
        PeerSession { options, auth_token, remote_id: None, auth_ok, heartbeats: 0 }
    }

    /// Whether the peer may send spots and is sent them.
    pub fn is_authenticated(&self) -> (ok: bool)
        ensures
            ok == self@.auth_ok,
    {
        self.auth_ok
    }

    /// The name that the peer gave, where it gave one.
    pub fn remote_id(&self) -> (id: &Option<NodeId>)
        ensures
            node_view(*id) == self@.remote_id,
    {
        &self.remote_id
    }

    /// The time between two heartbeats: the configured one, but a second at least.
    pub fn heartbeat_interval(&self) -> (span: Span)
        ensures
            span@ == if self@.options.heartbeat_interval >= NANOS_PER_SECOND {
                self@.options.heartbeat_interval
            } else {
                NANOS_PER_SECOND as nat
            },
    {
        self.options.heartbeat_interval.longer(Span::from_secs(1))
    }

    /// The frames to send when the link opens, in their order.
    pub fn opening_frames(&self, state: &NodeState) -> (frames: Vec<PeerFrame>)
        ensures
            frame_views(frames@) == opening(self@, state.id(), state.spots()),
    {
        let mut frames: Vec<PeerFrame> = Vec::new();
        frames.push(
            PeerFrame::Hello {
                node_id: state.node_id().clone(),
                version: self.options.version.clone(),
            },
        );
        frames.push(PeerFrame::Capabilities { values: clone_strings(&self.options.capabilities) });
        match &self.auth_token {
            Some(token) => {
                frames.push(PeerFrame::Auth { token: token.clone() });
            },
            None => {},
        }
        let ghost head = frame_views(frames@);
        let recent = state.recent(BOOTSTRAP_SPOTS);
        let ghost newest = newest_first(state.spots(), BOOTSTRAP_SPOTS as nat);
        let mut i: usize = 0;
        while i < recent.len()
            invariant
                i <= recent.len(),
                spot_views(recent@) == newest,
                frame_views(frames@) == head + replay(newest.take(i as int)),
            decreases recent.len() - i,
        {
            let ghost before = frame_views(frames@);
            let frame = PeerFrame::Spot { spot: recent[i].forwarded() };
            assert(recent@[i as int]@ == newest[i as int]);
            frames.push(frame);
            assert(frame_views(frames@) =~= before.push(frame@));
            assert(head + replay(newest.take(i + 1)) =~= (head + replay(newest.take(i as int))).push(
                frame@,
            ));
            i += 1;
        }
        assert(newest.take(recent.len() as int) =~= newest);
        assert(head =~= opening(self@, state.id(), Seq::<SpotModel>::empty()));
        assert(opening(self@, state.id(), Seq::<SpotModel>::empty()) + replay(newest)
            =~= opening(self@, state.id(), state.spots()));
        frames
    }

    /// The next heartbeat to send; heartbeats are numbered from one.
    pub fn heartbeat_frame(&mut self) -> (frame: PeerFrame)
        ensures
            final(self)@ == (SessionModel {
                heartbeats: next_heartbeat(old(self)@.heartbeats),
                ..old(self)@
            }),
            frame@ == (FrameModel::Heartbeat {
                nonce: decimal_digits(next_heartbeat(old(self)@.heartbeats) as nat),
            }),
    {
        if self.heartbeats < u64::MAX {
            self.heartbeats = self.heartbeats + 1;
        }
        let mut nonce: Vec<char> = Vec::new();
        push_u64(&mut nonce, self.heartbeats);
        assert(nonce@ =~= decimal_digits(self.heartbeats as nat));
        PeerFrame::Heartbeat { nonce: string_of(nonce.as_slice()) }
    }

    /// The frame by which a stored spot is passed on to the peer, where it is.
    pub fn forward(&self, news: &SpotAnnouncement) -> (frame: Option<PeerFrame>)
        ensures
            frame_view(frame) == forwarding(self@, news@),
    {
        if self.auth_ok && should_forward(&self.remote_id, news) {
            Some(PeerFrame::Spot { spot: news.spot.forwarded() })
        } else {
            None
        }
    }

    /// Handles a line that the peer sent. An error ends the session and
    /// leaves everything as it was.
    pub fn on_line(&mut self, state: &mut NodeState, line: &str) -> (r: Result<
        FrameOutcome,
        PeerSessionError,
    >)
        requires
            old(state).wf(),
        ensures
            final(state).wf(),
            final(state).id() == old(state).id(),
            match r {
                Ok(outcome) => received(old(self)@, old(state).spots(), line@) == Ok::<
                    Step,
                    PeerSessionError,
                >(
                    Step {
                        session: final(self)@,
                        spots: final(state).spots(),
                        reply: frame_view(outcome.reply),
                        announcement: announcement_view(outcome.announcement),
                    },
                ),
                Err(e) => received(old(self)@, old(state).spots(), line@) == Err::<
                    Step,
                    PeerSessionError,
                >(e) && final(self)@ == old(self)@ && final(state).spots() == old(state).spots(),
            },
    {
        match PeerFrame::parse(line) {
            Ok(frame) => self.handle_frame(state, frame),
            Err(_) => Ok(FrameOutcome { reply: None, announcement: None }),
        }
    }

    /// Handles a frame that the peer sent. An error ends the session and
    /// leaves everything as it was.
    pub fn handle_frame(&mut self, state: &mut NodeState, frame: PeerFrame) -> (r: Result<
        FrameOutcome,
        PeerSessionError,
    >)
        requires
            old(state).wf(),
        ensures
            final(state).wf(),
            final(state).id() == old(state).id(),
            match r {
                Ok(outcome) => handled(old(self)@, old(state).spots(), frame@) == Ok::<
                    Step,
                    PeerSessionError,
                >(
                    Step {
                        session: final(self)@,
                        spots: final(state).spots(),
                        reply: frame_view(outcome.reply),
                        announcement: announcement_view(outcome.announcement),
                    },
                ),
                Err(e) => handled(old(self)@, old(state).spots(), frame@) == Err::<
                    Step,
                    PeerSessionError,
                >(e) && final(self)@ == old(self)@ && final(state).spots() == old(state).spots(),
            },
    {
        match frame {
            PeerFrame::Hello { node_id, version } => {
                self.remote_id = Some(node_id);
                Ok(FrameOutcome { reply: None, announcement: None })
            },
            PeerFrame::Capabilities { values } => Ok(
                FrameOutcome { reply: None, announcement: None },
            ),
            PeerFrame::Auth { token } => {
                let refused = match &self.options.expected_auth_token {
                    Some(expected) => token != *expected,
                    None => false,
                };
                if refused {
                    return Err(PeerSessionError::AuthFailed);
                }
                self.auth_ok = true;
                Ok(FrameOutcome { reply: None, announcement: None })
            },
            PeerFrame::Spot { spot } => {
                if !self.auth_ok {
                    return Err(PeerSessionError::AuthRequired);
                }
                let mut spot = spot;
                if spot.origin.is_none() && self.remote_id.is_some() {
                    spot.origin = clone_node(&self.remote_id);
                }
                let source = clone_node(&self.remote_id);
                let news = state.insert_with_source(spot, source);
                Ok(FrameOutcome { reply: None, announcement: Some(news) })
            },
            PeerFrame::Heartbeat { nonce } => Ok(FrameOutcome { reply: None, announcement: None }),
            PeerFrame::Ping { nonce } => Ok(
                FrameOutcome { reply: Some(PeerFrame::Pong { nonce }), announcement: None },
            ),
            PeerFrame::Pong { nonce } => Ok(FrameOutcome { reply: None, announcement: None }),
        }
    }
}

/// What the bus of stored spots hands to the session of a link.
#[derive(Debug)]
pub enum BusEvent {
    /// A spot was stored.
    Announcement(SpotAnnouncement),
    /// The session was too slow and missed announcements.
    Lagged,
    /// The bus is gone.
    Closed,
}

/// What the session does with what the bus handed to it.
#[derive(Debug)]
pub enum BusAction {
    /// Send the frame to the peer.
    Send(PeerFrame),
    /// Nothing to send; wait for the next event.
    Skip,
    /// End the forwarding.
    Stop,
}

impl PeerSession {
    /// Decides what to do with an event of the bus: an announcement is
    /// passed on or not as `forward` says, missed announcements are passed
    /// over without ending anything, and only the end of the bus ends the
    /// forwarding.
    pub fn on_bus_event(&self, event: &BusEvent) -> (action: BusAction)
        ensures
            match *event {
                BusEvent::Announcement(news) => match forwarding(self@, news@) {
                    Some(frame) => action matches BusAction::Send(sent) && sent@ == frame,
                    None => action is Skip,
                },
                BusEvent::Lagged => action is Skip,
                BusEvent::Closed => action is Stop,
            },
    {
        match event {
            BusEvent::Announcement(news) => match self.forward(news) {
                Some(frame) => BusAction::Send(frame),
                None => BusAction::Skip,
            },
            BusEvent::Lagged => BusAction::Skip,
            BusEvent::Closed => BusAction::Stop,
        }
    }
}

/// Loop suppression. A spot that comes in from a peer whose name is known is
/// announced with that peer as its source, and the session of that link does
/// not pass such an announcement on, now or later, as long as the peer keeps
/// its name.
pub proof fn lemma_loop_suppression(
    session: SessionModel,
    spots: Seq<SpotModel>,
    spot: SpotModel,
    later: SessionModel,
)
    requires
        session.remote_id is Some,
        later.remote_id == session.remote_id,
    ensures
        handled(session, spots, FrameModel::Spot { spot }) matches Ok(step) ==> {
            &&& step.announcement is Some
            &&& step.announcement->0.source == session.remote_id
            &&& forwarding(step.session, step.announcement->0) is None
            &&& forwarding(later, step.announcement->0) is None
        },
{
}

/// Hop counting. Storing a spot leaves its hop count as it came, and every
/// spot that is sent, passed on or replayed, has one hop more than the stored
/// one, unless the count is at its highest already.
pub proof fn lemma_hop_monotonic(
    session: SessionModel,
    spots: Seq<SpotModel>,
    news: AnnouncementModel,
    spot: SpotModel,
    i: int,
)
    ensures
        ingested(spot, session.remote_id).hop == spot.hop,
        spot.forwarded().hop >= spot.hop,
        spot.hop < u32::MAX ==> spot.forwarded().hop == spot.hop + 1,
        forwarding(session, news) matches Some(frame) ==> frame == (FrameModel::Spot {
            spot: news.spot.forwarded(),
        }),
        0 <= i < replay(spots).len() ==> replay(spots)[i] == (FrameModel::Spot {
            spot: spots[i].forwarded(),
        }),
{
}

/// Gating. A session lets the peer in from the start exactly where no token
/// is expected. While the peer is not let in, a spot from it ends the session
/// and stores nothing, and nothing is passed on to it. Only an `AUTH` frame
/// with the expected token lets the peer in.
pub proof fn lemma_auth_gating(
    options: PeerOptionsModel,
    auth_token: Option<Seq<char>>,
    session: SessionModel,
    spots: Seq<SpotModel>,
    spot: SpotModel,
    news: AnnouncementModel,
    frame: FrameModel,
)
    ensures
        opened(options, auth_token).auth_ok <==> options.expected_auth_token is None,
        !session.auth_ok ==> handled(session, spots, FrameModel::Spot { spot }) == Err::<
            Step,
            PeerSessionError,
        >(PeerSessionError::AuthRequired),
        !session.auth_ok ==> forwarding(session, news) is None,
        handled(session, spots, frame) matches Ok(step) ==> {
            &&& step.session.options == session.options
            &&& (!session.auth_ok && step.session.auth_ok ==> frame is Auth && (
            session.options.expected_auth_token is None || session.options.expected_auth_token
                == Some(frame->token)))
            &&& (!session.auth_ok ==> step.spots == spots && step.announcement is None)
        },
{
}

/// The session and the stored spots after the lines `lines` were received
/// in their order, unless one of them ended the session.
pub open spec fn after_lines(session: SessionModel, spots: Seq<SpotModel>, lines: Seq<Seq<char>>) -> Option<
    (SessionModel, Seq<SpotModel>),
>
    decreases lines.len(),
{
    if lines.len() == 0 {
        Some((session, spots))
    } else {
        match after_lines(session, spots, lines.drop_last()) {
            None => None,
            Some((before, kept)) => match received(before, kept, lines.last()) {
                Ok(step) => Some((step.session, step.spots)),
                Err(_) => None,
            },
        }
    }
}

/// Whether a line presents the token `token`.
pub open spec fn presents(line: Seq<char>, token: Seq<char>) -> bool {
    parse_frame(line) == Ok::<FrameModel, PeerParseError>(FrameModel::Auth { token })
}

/// Gating over a whole link. Where a token is expected, then whatever lines
/// the peer sends, as long as none of them presents that token the peer is
/// not let in and no spot of it is stored.
pub proof fn lemma_gated_until_auth(
    options: PeerOptionsModel,
    auth_token: Option<Seq<char>>,
    spots: Seq<SpotModel>,
    lines: Seq<Seq<char>>,
)
    requires
        options.expected_auth_token is Some,
        forall|i: int|
            0 <= i < lines.len() ==> !presents(#[trigger] lines[i], options.expected_auth_token->0),
    ensures
        after_lines(opened(options, auth_token), spots, lines) matches Some((session, kept)) ==> {
            &&& !session.auth_ok
            &&& session.options == options
            &&& kept == spots
        },
    decreases lines.len(),
{
    if lines.len() > 0 {
        let front = lines.drop_last();
        assert forall|i: int| 0 <= i < front.len() implies !presents(
            #[trigger] front[i],
            options.expected_auth_token->0,
        ) by {
            assert(front[i] == lines[i]);
        }
        lemma_gated_until_auth(options, auth_token, spots, front);
        assert(lines.last() == lines[lines.len() - 1]);
        assert(!presents(lines[lines.len() - 1], options.expected_auth_token->0));
    }
}

} // verus!
