//! Verified core of the MADE activity tracker: the business-day calendar,
//! metric aggregation, text preparation for embeddings, query-text
//! building, timeline ordering, collaboration matrices and the decisions
//! taken while synchronising GitHub data.

pub mod ai;
pub mod calendar;
pub mod config;
pub mod db;
pub mod github;
pub mod embeddings;
pub mod text;
pub mod metrics;
pub mod ordering;
pub mod search;
