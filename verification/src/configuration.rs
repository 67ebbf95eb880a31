//! The configuration of the fictions that are followed by number.

use vstd::prelude::*;

verus! {

/// The whole configuration.
#[derive(Debug)]
pub struct Configuration {
    pub royalroad: RoyalRoadConfiguration,
}

/// The RoyalRoad fictions to follow.
#[derive(Debug)]
pub struct RoyalRoadConfiguration {
    pub ids: Vec<u32>,
}

impl Default for RoyalRoadConfiguration {
    fn default() -> (configuration: RoyalRoadConfiguration)
        ensures
            configuration.ids@.len() == 0,
    {
        RoyalRoadConfiguration { ids: Vec::new() }
    }
}

} // verus!
