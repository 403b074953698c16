//! The filter of a user session.

use vstd::prelude::*;
use crate::spot::Spot;

verus! {

/// Which spots a user is shown. This filter shows every spot.
#[derive(Debug, Clone, Copy, Default)]
pub struct Filter;

impl Filter {
    /// Whether the user is shown `spot`.
    pub fn matches(&self, spot: &Spot) -> (shown: bool)
        ensures
            shown,
    {
        true
    }

    /// The filter in words.
    pub fn summary(&self) -> (out: String)
        ensures
            out@ == "Filters: accepting all spots"@,
    {
        "Filters: accepting all spots".to_owned()
    }
}

} // verus!
