pub mod graphql;
pub mod rest_api;
pub mod cli;
pub mod sync;
pub mod sync_user;
pub mod auth;
pub mod commands;
