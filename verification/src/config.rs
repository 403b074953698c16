//! What a node is configured with.

use vstd::prelude::*;
use crate::ids::NodeId;
use crate::peer::{clone_strings, string_views};

verus! {

/// The nanoseconds in a second.
pub const NANOS_PER_SECOND: u128 = 1_000_000_000;

/// The nanoseconds in a millisecond.
pub const NANOS_PER_MILLI: u128 = 1_000_000;

/// A length of time, in whole nanoseconds.
#[derive(Debug, Clone, Copy, PartialEq, Eq)]
pub struct Span {
    nanos: u128,
}

impl View for Span {
    type V = nat;

    closed spec fn view(&self) -> nat {
        self.nanos as nat
    }
}

impl Span {
    /// `nanos` nanoseconds.
    pub fn from_nanos(nanos: u128) -> (span: Span)
        ensures
            span@ == nanos,
    {
        Span { nanos }
    }

    /// `millis` milliseconds.
    pub fn from_millis(millis: u64) -> (span: Span)
        ensures
            span@ == millis * NANOS_PER_MILLI,
    {
        Span { nanos: millis as u128 * NANOS_PER_MILLI }
    }

    /// `secs` seconds.
    pub fn from_secs(secs: u64) -> (span: Span)
        ensures
            span@ == secs * NANOS_PER_SECOND,
    {
        Span { nanos: secs as u128 * NANOS_PER_SECOND }
    }

    /// The length in nanoseconds.
    pub fn as_nanos(&self) -> (nanos: u128)
        ensures
            nanos == self@,
    {
        self.nanos
    }

    /// The whole seconds of the length, or the largest number where they do
    /// not fit.
    pub fn as_secs(&self) -> (secs: u64)
        ensures
            secs == if self@ / (NANOS_PER_SECOND as nat) <= u64::MAX {
                self@ / (NANOS_PER_SECOND as nat)
            } else {
                u64::MAX as nat
            },
    {
        let whole = self.nanos / NANOS_PER_SECOND;
        if whole <= 0xffff_ffff_ffff_ffff {
            whole as u64
        } else {
            u64::MAX
        }
    }

    /// The longer of the two.
    pub fn longer(self, other: Span) -> (out: Span)
        ensures
            out@ == if self@ >= other@ {
                self@
            } else {
                other@
            },
    {
        if self.nanos >= other.nanos {
            self
        } else {
            other
        }
    }

    /// The shorter of the two.
    pub fn shorter(self, other: Span) -> (out: Span)
        ensures
            out@ == if self@ <= other@ {
                self@
            } else {
                other@
            },
    {
        if self.nanos <= other.nanos {
            self
        } else {
            other
        }
    }
}

/// The text of a string, where there is one.
pub open spec fn text_view(s: Option<String>) -> Option<Seq<char>> {
    match s {
        Some(s) => Some(s@),
        None => None,
    }
}

/// A copy of the string, where there is one.
pub fn clone_text(s: &Option<String>) -> (out: Option<String>)
    ensures
        text_view(out) == text_view(*s),
{
    match s {
        Some(s) => Some(s.clone()),
        None => None,
    }
}

/// How a node speaks to its peers.
#[derive(Debug)]
pub struct PeerOptions {
    pub version: String,
    pub capabilities: Vec<String>,
    pub heartbeat_interval: Span,
    pub expected_auth_token: Option<String>,
}

/// What the peer options say, as mathematical values.
pub struct PeerOptionsModel {
    pub version: Seq<char>,
    pub capabilities: Seq<Seq<char>>,
    pub heartbeat_interval: nat,
    pub expected_auth_token: Option<Seq<char>>,
}

impl View for PeerOptions {
    type V = PeerOptionsModel;

    open spec fn view(&self) -> PeerOptionsModel {
        PeerOptionsModel {
            version: self.version@,
            capabilities: string_views(self.capabilities@),
            heartbeat_interval: self.heartbeat_interval@,
            expected_auth_token: text_view(self.expected_auth_token),
        }
    }
}

impl Clone for PeerOptions {
    fn clone(&self) -> (out: Self)
        ensures
            out@ == self@,
    {
        PeerOptions {
            version: self.version.clone(),
            capabilities: clone_strings(&self.capabilities),
            heartbeat_interval: self.heartbeat_interval,
            expected_auth_token: clone_text(&self.expected_auth_token),
        }
    }
}

impl Default for PeerOptions {
    /// Version 1, spots and heartbeats, a heartbeat every ten seconds, and
    /// no token asked of peers.
    fn default() -> (out: Self)
        ensures
            out@ == (PeerOptionsModel {
                version: "1"@,
                capabilities: seq!["spots-v1"@, "heartbeat"@],
                heartbeat_interval: 10 * NANOS_PER_SECOND as nat,
                expected_auth_token: None,
            }),
    {
        let mut capabilities: Vec<String> = Vec::new();
        capabilities.push("spots-v1".to_owned());
        capabilities.push("heartbeat".to_owned());
        assert(string_views(capabilities@) =~= seq!["spots-v1"@, "heartbeat"@]);
        PeerOptions {
            version: "1".to_owned(),
            capabilities,
            heartbeat_interval: Span::from_secs(10),
            expected_auth_token: None,
        }
    }
}

/// How long a node waits before it dials a peer again.
#[derive(Debug, Clone, Copy)]
pub struct PeerRetryPolicy {
    pub base_delay: Span,
    pub max_delay: Span,
}

impl Default for PeerRetryPolicy {
    /// One second at first, thirty seconds at most.
    fn default() -> (out: Self)
        ensures
            out.base_delay@ == NANOS_PER_SECOND,
            out.max_delay@ == 30 * NANOS_PER_SECOND,
    {
        PeerRetryPolicy { base_delay: Span::from_secs(1), max_delay: Span::from_secs(30) }
    }
}

/// The protocol that an upstream speaks.
#[derive(Debug, Clone, Copy, PartialEq, Eq)]
pub enum UpstreamMode {
    Telnet,
    Peer,
}

/// A node to dial.
#[derive(Debug)]
pub struct UpstreamConfig {
    pub addr: String,
    pub mode: UpstreamMode,
    pub login_callsign: Option<String>,
    pub auth_token: Option<String>,
}

/// What an upstream's configuration says, as mathematical values.
pub struct UpstreamModel {
    pub addr: Seq<char>,
    pub mode: UpstreamMode,
    pub login_callsign: Option<Seq<char>>,
    pub auth_token: Option<Seq<char>>,
}

impl View for UpstreamConfig {
    type V = UpstreamModel;

    open spec fn view(&self) -> UpstreamModel {
        UpstreamModel {
            addr: self.addr@,
            mode: self.mode,
            login_callsign: text_view(self.login_callsign),
            auth_token: text_view(self.auth_token),
        }
    }
}

impl Clone for UpstreamConfig {
    fn clone(&self) -> (out: Self)
        ensures
            out@ == self@,
    {
        UpstreamConfig {
            addr: self.addr.clone(),
            mode: self.mode,
            login_callsign: clone_text(&self.login_callsign),
            auth_token: clone_text(&self.auth_token),
        }
    }
}

/// The configuration of a node. The addresses are texts: whoever binds the
/// listeners reads them.
#[derive(Debug)]
pub struct NodeConfig {
    pub user_listen: String,
    pub peer_listen: Option<String>,
    pub node_id: NodeId,
    pub peer_options: PeerOptions,
    pub peer_retry: PeerRetryPolicy,
}

impl Clone for NodeConfig {
    fn clone(&self) -> (out: Self)
        ensures
            out.user_listen@ == self.user_listen@,
            text_view(out.peer_listen) == text_view(self.peer_listen),
            out.node_id@ == self.node_id@,
            out.peer_options@ == self.peer_options@,
            out.peer_retry == self.peer_retry,
    {
        NodeConfig {
            user_listen: self.user_listen.clone(),
            peer_listen: clone_text(&self.peer_listen),
            node_id: self.node_id.clone(),
            peer_options: self.peer_options.clone(),
            peer_retry: self.peer_retry,
        }
    }
}

} // verus!
