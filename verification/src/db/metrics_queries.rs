//! Rows of the PR-based dashboard queries.

use vstd::prelude::*;

verus! {

#[derive(Debug, Clone)]
pub struct ActiveRepository {
    pub repo_name: String,
    pub pr_count: i32,
    pub total_loc: i32,
    pub contributor_count: i32,
    pub last_activity: String,
}

/// Activity in one hour of one weekday.
#[derive(Debug, Clone, Copy, PartialEq, Eq, Structural)]
pub struct WorkPatternCell {
    /// 0 = Sunday, 1 = Monday, ...
    pub day_of_week: i32,
    /// 0 to 23.
    pub hour_of_day: i32,
    pub activity_count: i32,
}

} // verus!
