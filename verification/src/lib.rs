//! A verified line-filtering library: given a query and the full text of a
//! file, it returns the lines that contain the query as a substring, either
//! case-sensitively or case-insensitively, together with the configuration
//! builder that turns raw invocation arguments into an execution plan.

pub mod config;
pub mod laws;
pub mod lines;
pub mod matching;
pub mod seqs;

pub use config::Config;
pub use config::ConfigError;
pub use matching::matching_lines;
pub use matching::search;
pub use matching::search_case_insensitive;
