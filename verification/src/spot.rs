//! A spot: one report that a station was heard on a frequency.

use vstd::prelude::*;
use crate::callsign::Callsign;
use crate::frequency::FrequencyHz;
use crate::ids::{NodeId, SpotId};

verus! {

/// The first second that a timestamp can hold: the start of the year -9999.
pub const MIN_UNIX_TIMESTAMP: i64 = -377_705_116_800;

/// The last second that a timestamp can hold: the end of the year 9999.
pub const MAX_UNIX_TIMESTAMP: i64 = 253_402_300_799;

/// Whether `secs` seconds after the start of 1970 lie in the years -9999 to 9999.
pub open spec fn timestamp_in_range(secs: int) -> bool {
    MIN_UNIX_TIMESTAMP <= secs <= MAX_UNIX_TIMESTAMP
}

/// `time::OffsetDateTime::from_unix_timestamp` accepts a number of seconds
/// exactly where it lies in the years -9999 to 9999.
#[verifier::external_body]
fn offset_date_time_accepts(secs: i64) -> (ok: bool)
    ensures
        ok == timestamp_in_range(secs as int),
{
    time::OffsetDateTime::from_unix_timestamp(secs).is_ok()
}

/// `time::OffsetDateTime::now_utc`, in whole seconds: whatever the clock
/// says, it is a second that a timestamp can hold.
#[verifier::external_body]
fn utc_now_seconds() -> (secs: i64)
    ensures
        timestamp_in_range(secs as int),
{
    time::OffsetDateTime::now_utc().unix_timestamp()
}

/// A moment in UTC, to the second, in the years -9999 to 9999.
#[derive(Debug, Clone, Copy, PartialEq, Eq)]
pub struct Timestamp {
    secs: i64,
}

impl View for Timestamp {
    type V = int;

    closed spec fn view(&self) -> int {
        self.secs as int
    }
}

impl Timestamp {
    #[verifier::type_invariant]
    spec fn in_range(self) -> bool {
        timestamp_in_range(self.secs as int)
    }

    /// The moment `secs` seconds after the start of 1970, where it lies in
    /// the years -9999 to 9999.
    pub fn from_unix_timestamp(secs: i64) -> (r: Option<Timestamp>)
        ensures
            r is Some <==> timestamp_in_range(secs as int),
            r matches Some(t) ==> t@ == secs,
    {
        if offset_date_time_accepts(secs) {
            Some(Timestamp { secs })
        } else {
            None
        }
    }

    /// The moment at which it is called.
    pub fn now_utc() -> (t: Timestamp)
        ensures
            timestamp_in_range(t@),
    {
        Timestamp { secs: utc_now_seconds() }
    }

    /// The seconds from the start of 1970 to this moment.
    pub fn unix_timestamp(&self) -> (secs: i64)
        ensures
            secs == self@,
            timestamp_in_range(secs as int),
    {
        proof {
            use_type_invariant(self);
        }
        self.secs
    }
}

/// One report that the station `dx` was heard on `freq`.
#[derive(Debug, PartialEq, Eq)]
pub struct Spot {
    pub spot_id: SpotId,
    pub ts: Timestamp,
    pub freq: FrequencyHz,
    pub dx: Callsign,
    pub spotter: Callsign,
    pub comment: String,
    pub origin: Option<NodeId>,
    pub hop: u32,
}

/// What a spot says, as mathematical values.
pub struct SpotModel {
    pub spot_id: Seq<u8>,
    pub ts: int,
    pub freq: u64,
    pub dx: Seq<char>,
    pub spotter: Seq<char>,
    pub comment: Seq<char>,
    pub origin: Option<Seq<char>>,
    pub hop: u32,
}

/// The text of a node's name, where there is one.
pub open spec fn node_view(id: Option<NodeId>) -> Option<Seq<char>> {
    match id {
        Some(id) => Some(id@),
        None => None,
    }
}

/// A copy of the name, where there is one.
pub fn clone_node(id: &Option<NodeId>) -> (out: Option<NodeId>)
    ensures
        node_view(out) == node_view(*id),
{
    match id {
        Some(id) => Some(id.clone()),
        None => None,
    }
}

impl View for Spot {
    type V = SpotModel;

    open spec fn view(&self) -> SpotModel {
        SpotModel {
            spot_id: self.spot_id@,
            ts: self.ts@,
            freq: self.freq.0,
            dx: self.dx@,
            spotter: self.spotter@,
            comment: self.comment@,
            origin: node_view(self.origin),
            hop: self.hop,
        }
    }
}

impl Clone for Spot {
    fn clone(&self) -> (out: Self)
        ensures
            out@ == self@,
    {
        Spot {
            spot_id: self.spot_id,
            ts: self.ts,
            freq: self.freq,
            dx: self.dx.clone(),
            spotter: self.spotter.clone(),
            comment: self.comment.clone(),
            origin: clone_node(&self.origin),
            hop: self.hop,
        }
    }
}

impl SpotModel {
    /// The spot after one more link: the hop count one higher, unless it is
    /// at its highest already.
    pub open spec fn forwarded(self) -> SpotModel {
        SpotModel {
            hop: if self.hop < u32::MAX {
                (self.hop + 1) as u32
            } else {
                u32::MAX
            },
            ..self
        }
    }
}

impl Spot {
    /// A spot minted on this node: it has crossed no link yet.
    pub fn new_local(
        spot_id: SpotId,
        ts: Timestamp,
        freq: FrequencyHz,
        dx: Callsign,
        spotter: Callsign,
        comment: String,
        origin: Option<NodeId>,
    ) -> (spot: Self)
        ensures
            spot@ == (SpotModel {
                spot_id: spot_id@,
                ts: ts@,
                freq: freq.0,
                dx: dx@,
                spotter: spotter@,
                comment: comment@,
                origin: node_view(origin),
                hop: 0,
            }),
    {
        Spot { spot_id, ts, freq, dx, spotter, comment, origin, hop: 0 }
    }

    /// A copy of the spot as it is sent over one more link.
    pub fn forwarded(&self) -> (out: Spot)
        ensures
            out@ == self@.forwarded(),
    {
        let mut out = self.clone();
        out.hop = if self.hop < u32::MAX {
            self.hop + 1
        } else {
            u32::MAX
        };
        out
    }
}

} // verus!
