pub mod business_days;
pub mod calculator;
pub mod commands;
pub mod filter_params;
