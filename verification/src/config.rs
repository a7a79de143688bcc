//! Resolving raw invocation inputs into a validated search configuration.
use crate::lines::line_views;
use crate::matcher::search;
use crate::matcher::search_case_insensitive;
use crate::matcher::spec_search;
use crate::matcher::spec_search_ci;
use vstd::prelude::*;

verus! {

/// Why a configuration could not be resolved.
#[derive(Clone, Copy, PartialEq, Eq, Structural, Debug)]
pub enum ConfigError {
    /// Fewer raw argument tokens than the required query and filename.
    InsufficientArguments,
}

/// The validated parameters of one search invocation.
pub struct Config {
    /// The literal substring to look for.
    pub query: String,
    /// The name of the file whose text is to be scanned.
    pub filename: String,
    /// Whether matching respects character case.
    pub case_sensitive: bool,
}

impl Config {
    /// Resolves the raw argument tokens and the optional case override
    /// signal into a configuration. The first token names the program;
    /// the query and the filename follow it positionally. The mere
    /// presence of the override signal, whatever its value, turns case
    /// sensitivity off; its absence leaves matching case-sensitive.
    pub fn new(args: &Vec<String>, case_override: Option<String>) -> (r: Result<
        Config,
        ConfigError,
    >)
        ensures
            args@.len() < 3 ==> r == Result::<Config, ConfigError>::Err(
                ConfigError::InsufficientArguments,
            ),
            args@.len() >= 3 ==> (r matches Ok(c) && c.query@ == args@[1]@ && c.filename@
                == args@[2]@ && c.case_sensitive == (case_override is None)),
    {
        if args.len() < 3 {
            return Err(ConfigError::InsufficientArguments);
        }
        let query = args[1].clone();
        let filename = args[2].clone();
        let case_sensitive = match case_override {
            None => true,
            Some(_) => false,
        };
        Ok(Config { query, filename, case_sensitive })
    }
}

/// Runs the search that `config` selects over the loaded text: the
/// exact variant when the configuration is case-sensitive, the
/// lowercase-normalized variant otherwise.
pub fn run_search<'a>(config: &Config, contents: &'a str) -> (results: Vec<&'a str>)
    ensures
        config.case_sensitive ==> line_views(results@) == spec_search(config.query@, contents@),
        !config.case_sensitive ==> line_views(results@) == spec_search_ci(
            config.query@,
            contents@,
        ),
{
    if config.case_sensitive {
        search(config.query.as_str(), contents)
    } else {
        search_case_insensitive(config.query.as_str(), contents)
    }
}

} // verus!
