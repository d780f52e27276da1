//! CLI config: server URL + cached session token.

use vstd::prelude::*;

use super::args::secret_of;
use crate::shared::domain::entities::opt_chars;
use crate::text::{join2, join3};

verus! {

/// The server that a config without one names.
pub const DEFAULT_SERVER: &'static str = "http://localhost:8787";

/// What the client remembers between runs.
#[derive(Debug, PartialEq, Eq)]
pub struct Config {
    pub server: String,
    pub session_token: Option<String>,
}

impl Default for Config {
    fn default() -> (r: Self)
        ensures
            r.server@ == DEFAULT_SERVER@,
            r.session_token is None,
    {
        Config { server: DEFAULT_SERVER.to_owned(), session_token: None }
    }
}

impl Config {
    /// The cached session token, or the advice to log in.
    pub fn require_session(&self) -> (r: Result<&str, String>)
        ensures
            match opt_chars(self.session_token) {
                Some(t) => r matches Ok(s) && s@ == t,
                None => r matches Err(e) && e@
                    == "no session token; run `edgereplica login` first"@,
            },
    {
        match &self.session_token {
            Some(t) => Ok(t.as_str()),
            None => Err("no session token; run `edgereplica login` first".to_owned()),
        }
    }

    /// The config of a run: the server on the command line, where there is
    /// one, stands in for the stored one.
    pub fn for_run(self, server: Option<String>) -> (r: Self)
        ensures
            r.server@ == (match server {
                Some(s) => s@,
                None => self.server@,
            }),
            r.session_token == self.session_token,
    {
        match server {
            Some(s) => Config { server: s, session_token: self.session_token },
            None => self,
        }
    }

    /// The config with a fresh session.
    pub fn with_session(self, token: String) -> (r: Self)
        ensures
            r.server == self.server,
            r.session_token == Some(token),
    {
        Config { server: self.server, session_token: Some(token) }
    }
}

/// Resolve a CLI secret from the `--flag` argument or fall back to the value
/// of an environment var.
pub fn resolve_secret(
    arg: Option<String>,
    env_value: Option<String>,
    env_var: &str,
    flag_name: &str,
) -> (r: Result<String, String>)
    ensures
        secret_of(arg, env_value, env_var@, flag_name@, r),
{
    match arg {
        Some(a) => Ok(a),
        None => match env_value {
            Some(v) => Ok(v),
            None => {
                let head: String = join3(flag_name, " not provided (use --", flag_name);
                let tail: String = join3(head.as_str(), " or set ", env_var);
                Err(join2(tail.as_str(), ")"))
            },
        },
    }
}

} // verus!
