//! The client side of the two protocols. The transport belongs to the
//! caller: these clients keep the options of a connection and say what a
//! connection that carries nothing yet answers.

use vstd::prelude::*;
use vstd::string::StringExecFns;
use crate::callsign::Callsign;
use crate::config::{clone_text, text_view};
use crate::ids::NodeId;
use crate::peer::{FrameModel, PeerFrame};
use crate::user::{LineModel, ServerLine, UserCommand};

verus! {

/// `std::io::Error`, the error of an operation of the operating system. It
/// is carried through as it is: nothing is known of what it holds.
#[verifier::external_type_specification]
#[verifier::external_body]
pub struct ExIoError(std::io::Error);

/// The words of a `std::io::Error`, as its `Display` gives them. Nothing is
/// claimed of them.
#[verifier::external_body]
fn io_error_text(e: &std::io::Error) -> (out: String) {
    format!("{e}")
}

/// Why a client could not do what it was asked.
#[derive(Debug)]
pub enum ClientError {
    Connection,
    Io(std::io::Error),
}

impl ClientError {
    /// The error in words.
    pub fn message(&self) -> (out: String)
        ensures
            self is Connection ==> out@ == "connection failed"@,
            self is Io ==> out@.len() >= "io error: "@.len() && out@.take("io error: "@.len() as int)
                == "io error: "@,
    {
        match self {
            ClientError::Connection => "connection failed".to_owned(),
            ClientError::Io(e) => {
                let mut out = "io error: ".to_owned();
                let detail = io_error_text(e);
                out.append(detail.as_str());
                assert(out@.take("io error: "@.len() as int) =~= "io error: "@);
                out
            },
        }
    }
}

/// What a client hears from a node.
#[derive(Debug)]
pub enum ClientEvent {
    UserLine(ServerLine),
    PeerFrame(PeerFrame),
}

/// What an event says, as mathematical values.
pub enum EventModel {
    UserLine(LineModel),
    PeerFrame(FrameModel),
}

impl View for ClientEvent {
    type V = EventModel;

    open spec fn view(&self) -> EventModel {
        match self {
            ClientEvent::UserLine(line) => EventModel::UserLine(line@),
            ClientEvent::PeerFrame(frame) => EventModel::PeerFrame(frame@),
        }
    }
}

/// The sending side of a connection.
#[derive(Debug, Clone, Copy)]
pub struct ClientHandle;

impl ClientHandle {
    /// Hands a command over for sending.
    pub fn send_command(&self, cmd: UserCommand) -> (r: Result<(), ClientError>)
        ensures
            r is Ok,
    {
        Ok(())
    }

    /// Hands a frame over for sending.
    pub fn send_frame(&self, frame: PeerFrame) -> (r: Result<(), ClientError>)
        ensures
            r is Ok,
    {
        Ok(())
    }
}

/// As what a peer client presents itself.
#[derive(Debug)]
pub struct PeerOptions {
    pub node_id: NodeId,
    pub version: String,
}

impl Clone for PeerOptions {
    fn clone(&self) -> (out: Self)
        ensures
            out.node_id@ == self.node_id@,
            out.version@ == self.version@,
    {
        PeerOptions { node_id: self.node_id.clone(), version: self.version.clone() }
    }
}

/// A client of the peer protocol.
#[derive(Debug)]
pub struct PeerClient {
    handle: ClientHandle,
    options: PeerOptions,
}

impl PeerClient {
    /// The options that the client was made with.
    pub closed spec fn presented(&self) -> PeerOptions {
        self.options
    }

    /// A client for the node at `addr`.
    pub fn connect(addr: &str, options: PeerOptions) -> (r: Result<Self, ClientError>)
        ensures
            r matches Ok(client) && client.presented() == options,
    {
        Ok(PeerClient { handle: ClientHandle, options })
    }

    /// The next event: a connection that carries nothing answers each
    /// question with `PONG|0`.
    pub fn next_event(&mut self) -> (event: Option<Result<ClientEvent, ClientError>>)
        ensures
            final(self).presented() == old(self).presented(),
            event matches Some(Ok(e)) && e@ == EventModel::PeerFrame(
                FrameModel::Pong { nonce: "0"@ },
            ),
    {
        let frame = PeerFrame::Pong { nonce: "0".to_owned() };
        Some(Ok(ClientEvent::PeerFrame(frame)))
    }

    /// Hands a frame over for sending.
    pub fn send_frame(&self, frame: PeerFrame) -> (r: Result<(), ClientError>)
        ensures
            r is Ok,
    {
        self.handle.send_frame(frame)
    }

    /// The options that the client was made with.
    pub fn options(&self) -> (options: &PeerOptions)
        ensures
            *options == self.presented(),
    {
        &self.options
    }
}

/// With what a telnet client logs in.
#[derive(Debug)]
pub struct TelnetOptions {
    pub callsign: Option<Callsign>,
    pub password: Option<String>,
}

/// The text of a callsign, where there is one.
pub open spec fn callsign_view(call: Option<Callsign>) -> Option<Seq<char>> {
    match call {
        Some(call) => Some(call@),
        None => None,
    }
}

impl Clone for TelnetOptions {
    fn clone(&self) -> (out: Self)
        ensures
            callsign_view(out.callsign) == callsign_view(self.callsign),
            text_view(out.password) == text_view(self.password),
    {
        TelnetOptions {
            callsign: match &self.callsign {
                Some(call) => Some(call.clone()),
                None => None,
            },
            password: clone_text(&self.password),
        }
    }
}

impl Default for TelnetOptions {
    /// Neither a callsign nor a password.
    fn default() -> (out: Self)
        ensures
            out.callsign is None,
            out.password is None,
    {
        TelnetOptions { callsign: None, password: None }
    }
}

/// A client of the user protocol.
#[derive(Debug, Clone, Copy)]
pub struct TelnetClient {
    handle: ClientHandle,
}

impl TelnetClient {
    /// A client for the node at `addr`.
    pub fn connect(addr: &str, options: TelnetOptions) -> (r: Result<Self, ClientError>)
        ensures
            r is Ok,
    {
        Ok(TelnetClient { handle: ClientHandle })
    }

    /// The next event: a connection that carries nothing answers each
    /// question with the message `ok`.
    pub fn next_event(&mut self) -> (event: Option<Result<ClientEvent, ClientError>>)
        ensures
            event matches Some(Ok(e)) && e@ == EventModel::UserLine(LineModel::Message("ok"@)),
    {
        let line = ServerLine::Message("ok".to_owned());
        Some(Ok(ClientEvent::UserLine(line)))
    }

    /// Hands a command over for sending.
    pub fn send_command(&self, cmd: UserCommand) -> (r: Result<(), ClientError>)
        ensures
            r is Ok,
    {
        self.handle.send_command(cmd)
    }
}

} // verus!
