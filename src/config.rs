//! The search configuration, built from command-line style arguments and an
//! explicit case-folding override.

use vstd::prelude::*;

verus! {

/// What to search for, where, and whether letter case counts.
pub struct Config {
    pub query: String,
    pub filename: String,
    pub case_sensitive: bool,
}

/// Why a configuration could not be built.
#[derive(Clone, Copy, Debug, PartialEq, Eq, Structural)]
pub enum ConfigError {
    /// Fewer than a program name, a query and a path were given.
    InvalidArguments,
}

impl ConfigError {
    /// The message shown to the user for this error.
    pub fn message(&self) -> (r: &'static str)
        ensures
            r@ == "not enough arguments"@,
    {
        "not enough arguments"
    }
}

impl Config {
    /// Builds the configuration from `args`: the program name, then the query,
    /// then the path; whatever follows is ignored. `case_insensitive` is the
    /// override signal read by the caller; when it is set, letter case does not
    /// count.
    pub fn new(args: &[String], case_insensitive: bool) -> (r: Result<Config, ConfigError>)
        ensures
            r is Err <==> args@.len() < 3,
            match r {
                Ok(c) => {
                    &&& c.query@ == args@[1]@
                    &&& c.filename@ == args@[2]@
                    &&& c.case_sensitive == !case_insensitive
                },
                Err(e) => e == ConfigError::InvalidArguments,
            },
    {
        if args.len() < 3 {
            return Err(ConfigError::InvalidArguments);
        }
        let query = args[1].clone();
        let filename = args[2].clone();
        Ok(Config { query, filename, case_sensitive: !case_insensitive })
    }
}

} // verus!
