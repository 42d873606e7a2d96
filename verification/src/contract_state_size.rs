//! Bounds on what a campaign may store.

use vstd::prelude::*;

verus! {

/// The bounds that a deployment of the contract is built with. Lengths of lists are
/// counted in items, lengths of texts in bytes.
#[derive(Clone, Copy, Debug, PartialEq, Eq, Structural)]
pub struct StateLimits {
    pub max_contributors: u32,
    pub max_pledgers: u32,
    pub max_roadmap_items: u32,
    pub max_stretch_goals: u32,
    /// Bound on a text that is being added.
    pub max_string_len: u32,
    /// Bound on the description of a roadmap item that is already stored.
    pub max_roadmap_description: u32,
    pub max_title: u32,
    pub max_description: u32,
    pub max_social_links: u32,
    /// Bound on title, description and social links together.
    pub max_metadata_total: u32,
    pub max_bonus_goal_description: u32,
    /// How many seconds a campaign has to run at least.
    pub min_deadline_offset: u64,
}

/// Whether a list of `len` items may grow by one.
pub fn validate_capacity(len: usize, max: u32) -> (r: bool)
    ensures
        r == (len < max),
{
    len < max as usize
}

/// Whether a text of `len` bytes is within a bound.
pub fn validate_length(len: usize, max: u32) -> (r: bool)
    ensures
        r == (len <= max),
{
    len <= max as usize
}

} // verus!
