pub mod commands;
pub mod sidecar;
pub mod types;
