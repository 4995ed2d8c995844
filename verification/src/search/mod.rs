pub mod duplicates;
pub mod vector_store;
