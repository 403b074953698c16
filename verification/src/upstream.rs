//! Dialling peers: which upstreams are dialled, and how long to wait before
//! the next try.

use vstd::prelude::*;
use crate::config::{PeerRetryPolicy, Span, UpstreamConfig, UpstreamMode, UpstreamModel};

verus! {

/// Two to the power `n`.
pub open spec fn pow2(n: nat) -> nat
    decreases n,
{
    if n == 0 {
        1
    } else {
        2 * pow2((n - 1) as nat)
    }
}

/// The wait before the next try, in nanoseconds, after `attempt` failed tries
/// in a row: the base wait, doubled with each failure after the first, and
/// never more than `max`. Before any failure it is the base wait as it is.
pub open spec fn backoff(base: nat, max: nat, attempt: nat) -> nat {
    if attempt == 0 {
        base
    } else if base * pow2((attempt - 1) as nat) <= max {
        base * pow2((attempt - 1) as nat)
    } else {
        max
    }
}

/// A higher power of two is no smaller, and none is below one.
pub proof fn lemma_pow2_monotonic(a: nat, b: nat)
    requires
        a <= b,
    ensures
        1 <= pow2(a) <= pow2(b),
    decreases b,
{
    if a < b {
        lemma_pow2_monotonic(a, (b - 1) as nat);
    } else if a > 0 {
        lemma_pow2_monotonic((a - 1) as nat, (b - 1) as nat);
    }
}

/// The wait before the next try after `attempt` failed tries in a row.
pub fn backoff_delay(retry: &PeerRetryPolicy, attempt: usize) -> (delay: Span)
    ensures
        delay@ == backoff(retry.base_delay@, retry.max_delay@, attempt as nat),
{
    if attempt == 0 {
        return retry.base_delay;
    }
    let base = retry.base_delay.as_nanos();
    let max = retry.max_delay.as_nanos();
    let doublings = attempt - 1;
    if base == 0 {
        assert(0 * pow2(doublings as nat) == 0) by (nonlinear_arith);
        return Span::from_nanos(0);
    }
    let mut delay: u128 = base;
    let mut i: usize = 0;
    assert(base * pow2(0) == base) by (nonlinear_arith)
        requires
            pow2(0) == 1,
    ;
    while i < doublings
        invariant
            i <= doublings,
            base >= 1,
            attempt >= 1,
            doublings == attempt - 1,
            base == retry.base_delay@,
            max == retry.max_delay@,
            delay == base * pow2(i as nat),
        decreases doublings - i,
    {
        if delay > max / 2 {
            proof {
                lemma_pow2_monotonic((i + 1) as nat, doublings as nat);
                let p = pow2(i as nat);
                let q = pow2(doublings as nat);
                assert(pow2((i + 1) as nat) == 2 * p);
                assert(base * q >= base * (2 * p)) by (nonlinear_arith)
                    requires
                        q >= 2 * p,
                        base >= 1,
                ;
                assert(base * (2 * p) == 2 * (base * p)) by (nonlinear_arith);
                assert(2 * delay > max);
                assert(base * q > max);
                assert((attempt - 1) as nat == doublings as nat);
            }
            return retry.max_delay;
        }
        proof {
            let p = pow2(i as nat);
            assert(pow2((i + 1) as nat) == 2 * p);
            assert(base * (2 * p) == 2 * (base * p)) by (nonlinear_arith);
        }
        delay = delay * 2;
        i += 1;
    }
    if delay <= max {
        Span::from_nanos(delay)
    } else {
        retry.max_delay
    }
}

/// The schedule of waits: the first failure is followed by the base wait,
/// each further failure doubles the wait, and no wait is longer than the
/// longest one allowed.
pub proof fn lemma_backoff_schedule(base: nat, max: nat, attempt: nat)
    requires
        attempt >= 1,
    ensures
        backoff(base, max, 1) == if base <= max {
            base
        } else {
            max
        },
        backoff(base, max, attempt) <= max,
        backoff(base, max, attempt + 1) == if 2 * backoff(base, max, attempt) <= max {
            2 * backoff(base, max, attempt)
        } else {
            max
        },
        backoff(base, max, attempt) <= backoff(base, max, attempt + 1),
        base * pow2((attempt - 1) as nat) <= max ==> backoff(base, max, attempt) == base * pow2(
            (attempt - 1) as nat,
        ),
{
    let p = pow2((attempt - 1) as nat);
    assert(pow2(0) == 1);
    assert(base * 1 == base) by (nonlinear_arith);
    assert(pow2(attempt) == 2 * p);
    assert(base * (2 * p) == 2 * (base * p)) by (nonlinear_arith);
}

/// The state of the connector of one upstream: the number of tries that
/// failed since the last one that succeeded.
#[derive(Debug, Clone, Copy)]
pub struct Connector {
    retry: PeerRetryPolicy,
    attempt: usize,
}

impl Connector {
    /// The failed tries in a row.
    pub closed spec fn attempts(&self) -> nat {
        self.attempt as nat
    }

    /// The waits that the connector was made with.
    pub closed spec fn policy(&self) -> PeerRetryPolicy {
        self.retry
    }

    /// A connector that has not dialled yet.
    pub fn new(retry: PeerRetryPolicy) -> (out: Self)
        ensures
            out.attempts() == 0,
            out.policy() == retry,
    {
        Connector { retry, attempt: 0 }
    }

    /// Takes note of a try that succeeded: the count of failures starts anew.
    pub fn connected(&mut self)
        ensures
            final(self).attempts() == 0,
            final(self).policy() == old(self).policy(),
    {
        self.attempt = 0;
    }

    /// Takes note of a try that failed.
    pub fn connect_failed(&mut self)
        ensures
            final(self).attempts() == if old(self).attempts() < usize::MAX {
                old(self).attempts() + 1
            } else {
                old(self).attempts()
            },
            final(self).policy() == old(self).policy(),
    {
        if self.attempt < usize::MAX {
            self.attempt = self.attempt + 1;
        }
    }

    /// The wait before the next try: after a session that ran it is the base
    /// wait, after failures it follows the schedule.
    pub fn next_delay(&self) -> (delay: Span)
        ensures
            delay@ == backoff(
                self.policy().base_delay@,
                self.policy().max_delay@,
                self.attempts(),
            ),
    {
        backoff_delay(&self.retry, self.attempt)
    }
}

/// The upstreams that speak the peer protocol, in their order.
pub open spec fn peers_only(configs: Seq<UpstreamModel>) -> Seq<UpstreamModel>
    decreases configs.len(),
{
    if configs.len() == 0 {
        Seq::<UpstreamModel>::empty()
    } else if configs.last().mode == UpstreamMode::Peer {
        peers_only(configs.drop_last()).push(configs.last())
    } else {
        peers_only(configs.drop_last())
    }
}

/// The views of a sequence of upstream configurations.
pub open spec fn upstream_views(configs: Seq<UpstreamConfig>) -> Seq<UpstreamModel> {
    configs.map_values(|c: UpstreamConfig| c@)
}

/// The upstreams to dial: those that speak the peer protocol, in their order.
pub fn peer_upstreams(configs: &[UpstreamConfig]) -> (out: Vec<UpstreamConfig>)
    ensures
        upstream_views(out@) == peers_only(upstream_views(configs@)),
{
    let mut out: Vec<UpstreamConfig> = Vec::new();
    let mut i: usize = 0;
    assert(upstream_views(configs@).take(0) =~= Seq::<UpstreamModel>::empty());
    assert(upstream_views(out@) =~= Seq::<UpstreamModel>::empty());
    while i < configs.len()
        invariant
            i <= configs.len(),
            upstream_views(out@) == peers_only(upstream_views(configs@).take(i as int)),
        decreases configs.len() - i,
    {
        let ghost all = upstream_views(configs@);
        assert(all.take(i + 1).drop_last() =~= all.take(i as int));
        assert(all.take(i + 1).last() == configs@[i as int]@);
        match configs[i].mode {
            UpstreamMode::Peer => {
                let ghost before = upstream_views(out@);
                let copy = configs[i].clone();
                out.push(copy);
                assert(upstream_views(out@) =~= before.push(copy@));
            },
            UpstreamMode::Telnet => {},
        }
        i += 1;
    }
    assert(upstream_views(configs@).take(configs.len() as int) =~= upstream_views(configs@));
    out
}

} // verus!
