//! A DX cluster node: the spots it keeps, the lines it exchanges with users
//! and with peers, and what its sessions do with them.

use vstd::prelude::*;

pub mod band;
pub mod cache;
pub mod callsign;
pub mod cli;
pub mod client;
pub mod config;
pub mod dedupe;
pub mod error;
pub mod filter;
pub mod format;
pub mod frequency;
pub mod ids;
pub mod mode;
pub mod node;
pub mod normalize;
pub mod number;
pub mod peer;
pub mod peer_session;
pub mod policy;
pub mod rate_limit;
pub mod session;
pub mod spot;
pub mod state;
pub mod text;
pub mod upstream;
pub mod user;

pub use band::{Band, BandDefinition};
pub use cache::SpotCache;
pub use callsign::Callsign;
pub use config::{NodeConfig, PeerOptions, PeerRetryPolicy, Span, UpstreamConfig, UpstreamMode};
pub use dedupe::{DedupeResult, DedupeTable};
pub use error::{
    CallsignError, FrequencyError, NodeError, PeerParseError, PolicyReject, UserParseError,
};
pub use filter::Filter;
pub use frequency::FrequencyHz;
pub use ids::{NodeId, SpotId};
pub use mode::Mode;
pub use node::{Node, NodeBuilder};
pub use peer::PeerFrame;
pub use peer_session::PeerSession;
pub use policy::Policy;
pub use rate_limit::RateLimiter;
pub use session::UserSession;
pub use spot::{Spot, Timestamp};
pub use state::{NodeState, SpotAnnouncement};
pub use user::{ServerLine, ShowCommand, UserCommand};
