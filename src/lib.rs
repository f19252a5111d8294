pub mod text;
pub mod types;
pub mod mirror;
pub mod scan;
pub mod store;
pub mod legacy;
pub mod config;
pub mod laws;
