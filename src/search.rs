pub mod matcher;

pub use matcher::Matcher;
