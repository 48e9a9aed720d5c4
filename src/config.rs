//! The settings every invocation starts from.
use vstd::prelude::*;

verus! {

/// Branch prefix, API token and trunk's branch name.
#[derive(Clone, Debug)]
pub struct Config {
    pub github_branch_prefix: String,
    pub github_token: String,
    pub default_branch: String,
}

impl Config {
    /// A config with explicit values.
    pub fn new(github_branch_prefix: String, github_token: String, default_branch: String) -> (r: Config)
        ensures
            r.github_branch_prefix@ == github_branch_prefix@,
            r.github_token@ == github_token@,
            r.default_branch@ == default_branch@,
    {
        Config { github_branch_prefix, github_token, default_branch }
    }

    /// The config used by tests: prefix `test/`, token `test_token`, trunk
    /// `main`.
    pub fn default_for_tests() -> (r: Config)
        ensures
            r.github_branch_prefix@ == "test/"@,
            r.github_token@ == "test_token"@,
            r.default_branch@ == "main"@,
    {
        Config {
            github_branch_prefix: String::from_str("test/"),
            github_token: String::from_str("test_token"),
            default_branch: String::from_str("main"),
        }
    }

    /// The default branch prefix for the given user name: the name followed
    /// by `/`, or `dev/` when no name is known.
    pub fn default_github_branch_prefix(user: Option<String>) -> (r: String)
        ensures
            r@ == match user {
                Some(u) => u@ + "/"@,
                None => "dev/"@,
            },
    {
        match user {
            Some(u) => u.concat("/"),
            None => String::from_str("dev/"),
        }
    }
}

} // verus!
