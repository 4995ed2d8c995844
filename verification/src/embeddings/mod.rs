pub mod generator;
