//! The limit on how fast spots may come.

use vstd::prelude::*;
use crate::spot::Spot;

verus! {

/// How fast spots may come. This limiter lets every spot pass.
#[derive(Debug, Clone, Copy, Default)]
pub struct RateLimiter;

impl RateLimiter {
    /// Whether `spot` may pass.
    pub fn check(&self, spot: &Spot) -> (passes: bool)
        ensures
            passes,
    {
        true
    }
}

} // verus!
