//! The errors of the domain types and of the two wire formats.

use vstd::prelude::*;
use vstd::string::StringExecFns;

verus! {

/// Why a text is no callsign.
#[derive(Debug, Clone, Copy, PartialEq, Eq)]
pub enum CallsignError {
    Empty,
    InvalidFormat,
}

impl CallsignError {
    /// The error in words, as a sequence of characters.
    pub open spec fn message_text(self) -> Seq<char> {
        match self {
            CallsignError::Empty => "callsign is empty"@,
            CallsignError::InvalidFormat => "callsign has invalid format"@,
        }
    }

    /// The error in words.
    pub fn message(&self) -> (out: String)
        ensures
            out@ == self.message_text(),
    {
        match self {
            CallsignError::Empty => "callsign is empty".to_owned(),
            CallsignError::InvalidFormat => "callsign has invalid format".to_owned(),
        }
    }
}

/// Why a text is no frequency.
#[derive(Debug, Clone, Copy, PartialEq, Eq)]
pub enum FrequencyError {
    Missing,
    Invalid,
}

impl FrequencyError {
    /// The error in words, as a sequence of characters.
    pub open spec fn message_text(self) -> Seq<char> {
        match self {
            FrequencyError::Missing => "frequency value is missing"@,
            FrequencyError::Invalid => "frequency string is invalid"@,
        }
    }

    /// The error in words.
    pub fn message(&self) -> (out: String)
        ensures
            out@ == self.message_text(),
    {
        match self {
            FrequencyError::Missing => "frequency value is missing".to_owned(),
            FrequencyError::Invalid => "frequency string is invalid".to_owned(),
        }
    }
}

/// Why a line is no user command.
#[derive(Debug, Clone, Copy, PartialEq, Eq)]
pub enum UserParseError {
    Empty,
    Unknown,
    MissingCallsign,
    MissingFrequency,
    InvalidCallsign(CallsignError),
    InvalidFrequency(FrequencyError),
}

impl UserParseError {
    /// The error in words, as a sequence of characters.
    pub open spec fn message_text(self) -> Seq<char> {
        match self {
            UserParseError::Empty => "line was empty"@,
            UserParseError::Unknown => "unrecognized command"@,
            UserParseError::MissingCallsign => "DX command missing callsign"@,
            UserParseError::MissingFrequency => "DX command missing frequency"@,
            UserParseError::InvalidCallsign(e) => "invalid callsign: "@ + e.message_text(),
            UserParseError::InvalidFrequency(e) => "invalid frequency: "@ + e.message_text(),
        }
    }

    /// The error in words.
    pub fn message(&self) -> (out: String)
        ensures
            out@ == self.message_text(),
    {
        match self {
            UserParseError::Empty => "line was empty".to_owned(),
            UserParseError::Unknown => "unrecognized command".to_owned(),
            UserParseError::MissingCallsign => "DX command missing callsign".to_owned(),
            UserParseError::MissingFrequency => "DX command missing frequency".to_owned(),
            UserParseError::InvalidCallsign(e) => {
                let mut out = "invalid callsign: ".to_owned();
                out.append(e.message().as_str());
                out
            },
            UserParseError::InvalidFrequency(e) => {
                let mut out = "invalid frequency: ".to_owned();
                out.append(e.message().as_str());
                out
            },
        }
    }
}

/// Why a line is no peer frame.
#[derive(Debug, Clone, Copy, PartialEq, Eq)]
pub enum PeerParseError {
    Empty,
    Unknown,
    Missing(&'static str),
    Invalid(&'static str),
}

impl PeerParseError {
    /// The error in words, as a sequence of characters.
    pub open spec fn message_text(self) -> Seq<char> {
        match self {
            PeerParseError::Empty => "frame was empty"@,
            PeerParseError::Unknown => "frame type was not recognized"@,
            PeerParseError::Missing(what) => "frame missing "@ + what@,
            PeerParseError::Invalid(what) => "frame invalid: "@ + what@,
        }
    }

    /// The error in words.
    pub fn message(&self) -> (out: String)
        ensures
            out@ == self.message_text(),
    {
        match self {
            PeerParseError::Empty => "frame was empty".to_owned(),
            PeerParseError::Unknown => "frame type was not recognized".to_owned(),
            PeerParseError::Missing(what) => {
                let mut out = "frame missing ".to_owned();
                out.append(what);
                out
            },
            PeerParseError::Invalid(what) => {
                let mut out = "frame invalid: ".to_owned();
                out.append(what);
                out
            },
        }
    }
}

/// A spot that a policy turned away, with the reason.
#[derive(Debug, PartialEq, Eq)]
pub struct PolicyReject {
    pub reason: String,
}

impl Clone for PolicyReject {
    fn clone(&self) -> (out: Self)
        ensures
            out.reason@ == self.reason@,
    {
        PolicyReject { reason: self.reason.clone() }
    }
}

impl PolicyReject {
    /// A rejection for `reason`.
    pub fn new(reason: String) -> (out: Self)
        ensures
            out.reason@ == reason@,
    {
        PolicyReject { reason }
    }

    /// The reason in words.
    pub fn message(&self) -> (out: String)
        ensures
            out@ == self.reason@,
    {
        self.reason.clone()
    }
}

/// Why a node could not be started or stopped.
#[derive(Debug, Clone, Copy, PartialEq, Eq)]
pub enum NodeError {
    /// A listener could not be bound.
    Listener,
    /// A task of the node did not end as it should.
    Join,
}

impl NodeError {
    /// The error in words, as a sequence of characters.
    pub open spec fn message_text(self) -> Seq<char> {
        match self {
            NodeError::Listener => "failed to start listener"@,
            NodeError::Join => "task join error"@,
        }
    }

    /// The error in words.
    pub fn message(&self) -> (out: String)
        ensures
            out@ == self.message_text(),
    {
        match self {
            NodeError::Listener => "failed to start listener".to_owned(),
            NodeError::Join => "task join error".to_owned(),
        }
    }
}

} // verus!
