pub mod config;
pub mod error;
pub mod fs;
pub mod input;
pub mod search;
