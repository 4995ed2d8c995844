pub mod metrics_queries;
pub mod models;
pub mod project_queries;
pub mod queries;
pub mod user_queries;
