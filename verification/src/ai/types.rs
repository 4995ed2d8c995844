//! What the assistant is told about the screen the user is on.

use vstd::prelude::*;

verus! {

#[derive(Debug, Clone)]
pub struct AppContext {
    pub current_page: String,
    pub filters: FilterState,
}

#[derive(Debug, Clone)]
pub struct FilterState {
    pub date_range: Option<DateRange>,
    pub repositories: Vec<String>,
    pub squads: Vec<String>,
    pub users: Vec<String>,
}

#[derive(Debug, Clone)]
pub struct DateRange {
    pub start: String,
    pub end: String,
}

#[derive(Debug, Clone)]
pub struct ChatRequest {
    pub message: String,
    pub context: AppContext,
}

#[derive(Debug, Clone)]
pub struct ChatResponse {
    pub response: String,
    pub context: AppContext,
}

} // verus!
