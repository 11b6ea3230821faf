//! Configuration building: raw positional arguments plus one caller-supplied
//! environment fact become an immutable execution plan.

use vstd::prelude::*;
use vstd::slice::slice_index_get;

verus! {

/// The validated execution plan: what to search for, in which file, and
/// whether the match is case-sensitive. Immutable once constructed.
#[derive(Debug)]
pub struct Config {
    pub query: String,
    pub file_path: String,
    pub case_sensitive: bool,
}

/// The ways configuration building can fail.
#[derive(Clone, Copy, Debug, PartialEq, Eq, Structural)]
pub enum ConfigError {
    /// Fewer than two positional arguments were supplied.
    InsufficientArguments,
}

impl ConfigError {
    /// The user-facing diagnostic carried by this error.
    pub fn message(&self) -> (r: &'static str)
        ensures
            r@ == "Not enough arguments. Usage: minigrep <query> <file_path>"@,
    {
        "Not enough arguments. Usage: minigrep <query> <file_path>"
    }
}

impl Config {
    /// Builds the execution plan. `args` holds the positional invocation
    /// arguments with the program name already removed, conceptually
    /// `[query, file_path, ...]`; arguments beyond the first two are ignored.
    /// The caller reads the environment once and passes in whether the
    /// `CASE_SENSITIVE` variable is unset: presence of that variable, with any
    /// value, disables case sensitivity. No other validation happens here; an
    /// empty query or a nonexistent path is accepted and surfaces later.
    pub fn new(args: &[String], case_sensitive_env_unset: bool) -> (r: Result<Config, ConfigError>)
        ensures
            args@.len() < 2 ==> r == Err::<Config, ConfigError>(ConfigError::InsufficientArguments),
            args@.len() >= 2 ==> (r matches Ok(c)
                && c.query@ == args@[0]@
                && c.file_path@ == args@[1]@
                && c.case_sensitive == case_sensitive_env_unset),
    {
        if args.len() < 2 {
            return Err(ConfigError::InsufficientArguments);
        }
        let query = slice_index_get(args, 0).clone();
        let file_path = slice_index_get(args, 1).clone();
        Ok(Config { query, file_path, case_sensitive: case_sensitive_env_unset })
    }
}

} // verus!
