//! The policy by which a node takes spots in.

use vstd::prelude::*;
use crate::error::PolicyReject;
use crate::spot::Spot;

verus! {

/// Which spots a node takes in. This policy takes in every spot.
#[derive(Debug, Clone, Copy, Default)]
pub struct Policy;

impl Policy {
    /// Whether the node takes `spot` in.
    pub fn accept(&self, spot: &Spot) -> (r: Result<(), PolicyReject>)
        ensures
            r is Ok,
    {
        Ok(())
    }
}

} // verus!
