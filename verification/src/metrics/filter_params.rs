//! The filters the dashboard applies to its metrics.

use vstd::prelude::*;

verus! {

#[derive(Debug, Clone)]
pub struct MetricsFilters {
    pub date_range: Option<DateRange>,
    pub repository_ids: Option<Vec<i64>>,
    pub squad_id: Option<String>,
    pub user_id: Option<i64>,
}

/// A range of ISO 8601 dates.
#[derive(Debug, Clone)]
pub struct DateRange {
    pub start: String,
    pub end: String,
}

impl Default for MetricsFilters {
    fn default() -> (r: Self)
        ensures
            r.date_range is None,
            r.repository_ids is None,
            r.squad_id is None,
            r.user_id is None,
    {
        MetricsFilters { date_range: None, repository_ids: None, squad_id: None, user_id: None }
    }
}

} // verus!
