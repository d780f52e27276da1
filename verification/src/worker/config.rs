//! Tunables sourced from environment vars (or defaults).

use vstd::prelude::*;

use crate::shared::auth::keyring::{
    base64_standard, base64_url_safe, key_bytes, Keyring, KeyringError,
};
use crate::macaroon::derived_key;
use crate::text::{join3, parse_i64, parsed_i64, str_eq, trim, trimmed};
use crate::worker::services::common::no_text;
use vstd::utf8::encode_utf8;

verus! {

/// What the service can be tuned by.
#[derive(Debug, PartialEq, Eq)]
pub struct Config {
    pub session_ttl_seconds: i64,
    pub sync_token_ttl_seconds: i64,
    pub max_sync_token_ttl_seconds: i64,
    pub oauth_state_ttl_seconds: i64,
    pub oauth_redirect_base: String,
    pub github_client_id: Option<String>,
    pub github_client_secret: Option<String>,
    pub google_client_id: Option<String>,
    pub google_client_secret: Option<String>,
}

/// [`Config`] over characters.
#[verifier::ext_equal]
pub struct ConfigView {
    pub session_ttl_seconds: i64,
    pub sync_token_ttl_seconds: i64,
    pub max_sync_token_ttl_seconds: i64,
    pub oauth_state_ttl_seconds: i64,
    pub oauth_redirect_base: Seq<char>,
    pub github_client_id: Option<Seq<char>>,
    pub github_client_secret: Option<Seq<char>>,
    pub google_client_id: Option<Seq<char>>,
    pub google_client_secret: Option<Seq<char>>,
}

/// A text that may be missing, over characters.
pub open spec fn opt_text(s: Option<String>) -> Option<Seq<char>> {
    match s {
        Some(t) => Some(t@),
        None => None,
    }
}

impl View for Config {
    type V = ConfigView;

    open spec fn view(&self) -> ConfigView {
        ConfigView {
            session_ttl_seconds: self.session_ttl_seconds,
            sync_token_ttl_seconds: self.sync_token_ttl_seconds,
            max_sync_token_ttl_seconds: self.max_sync_token_ttl_seconds,
            oauth_state_ttl_seconds: self.oauth_state_ttl_seconds,
            oauth_redirect_base: self.oauth_redirect_base@,
            github_client_id: opt_text(self.github_client_id),
            github_client_secret: opt_text(self.github_client_secret),
            google_client_id: opt_text(self.google_client_id),
            google_client_secret: opt_text(self.google_client_secret),
        }
    }
}

/// The tunables of a deployment that sets nothing.
pub open spec fn default_config() -> ConfigView {
    ConfigView {
        session_ttl_seconds: 86400,
        sync_token_ttl_seconds: 3600,
        max_sync_token_ttl_seconds: 86400,
        oauth_state_ttl_seconds: 600,
        oauth_redirect_base: Seq::empty(),
        github_client_id: None,
        github_client_secret: None,
        google_client_id: None,
        google_client_secret: None,
    }
}

impl Default for Config {
    fn default() -> (r: Config)
        ensures
            r@ == default_config(),
    {
        Config {
            session_ttl_seconds: 86400,
            sync_token_ttl_seconds: 3600,
            max_sync_token_ttl_seconds: 86400,
            oauth_state_ttl_seconds: 600,
            oauth_redirect_base: String::new(),
            github_client_id: None,
            github_client_secret: None,
            google_client_id: None,
            google_client_secret: None,
        }
    }
}

/// The environment vars that the service reads.
#[derive(Debug, PartialEq, Eq)]
pub struct EnvVars {
    pub session_ttl_seconds: Option<String>,
    pub sync_token_ttl_seconds: Option<String>,
    pub max_sync_token_ttl_seconds: Option<String>,
    pub oauth_state_ttl_seconds: Option<String>,
    pub oauth_redirect_base: Option<String>,
    pub github_client_id: Option<String>,
    pub github_client_secret: Option<String>,
    pub google_client_id: Option<String>,
    pub google_client_secret: Option<String>,
}

/// A number of seconds: the default where the var is not set or no number.
pub open spec fn secs(v: Option<Seq<char>>, default: i64) -> i64 {
    match v {
        Some(s) => match parsed_i64(s) {
            Some(n) => n,
            None => default,
        },
        None => default,
    }
}

/// A text: missing where the var is not set or blank.
pub open spec fn set_text(v: Option<Seq<char>>) -> Option<Seq<char>> {
    match v {
        Some(s) => if trimmed(s).len() == 0 {
            None
        } else {
            Some(s)
        },
        None => None,
    }
}

fn read_secs(v: &Option<String>, default: i64) -> (r: i64)
    ensures
        r == secs(opt_text(*v), default),
{
    match v {
        Some(s) => match parse_i64(s.as_str()) {
            Some(n) => n,
            None => default,
        },
        None => default,
    }
}

fn read_str(v: &Option<String>) -> (r: Option<String>)
    ensures
        opt_text(r) == set_text(opt_text(*v)),
{
    match v {
        Some(s) => {
            if no_text(trim(s.as_str()).as_str()) {
                None
            } else {
                Some(s.clone())
            }
        },
        None => None,
    }
}

/// The tunables that the environment sets.
pub open spec fn config_of(env: EnvVars) -> ConfigView {
    ConfigView {
        session_ttl_seconds: secs(opt_text(env.session_ttl_seconds), 86400),
        sync_token_ttl_seconds: secs(opt_text(env.sync_token_ttl_seconds), 3600),
        max_sync_token_ttl_seconds: secs(opt_text(env.max_sync_token_ttl_seconds), 86400),
        oauth_state_ttl_seconds: secs(opt_text(env.oauth_state_ttl_seconds), 600),
        oauth_redirect_base: match set_text(opt_text(env.oauth_redirect_base)) {
            Some(s) => s,
            None => Seq::empty(),
        },
        github_client_id: set_text(opt_text(env.github_client_id)),
        github_client_secret: set_text(opt_text(env.github_client_secret)),
        google_client_id: set_text(opt_text(env.google_client_id)),
        google_client_secret: set_text(opt_text(env.google_client_secret)),
    }
}

/// The tunables that the environment sets.
pub fn load_config(env: &EnvVars) -> (r: Config)
    ensures
        r@ == config_of(*env),
{
    let base: String = match read_str(&env.oauth_redirect_base) {
        Some(s) => s,
        None => String::new(),
    };
    let r = Config {
        session_ttl_seconds: read_secs(&env.session_ttl_seconds, 86400),
        sync_token_ttl_seconds: read_secs(&env.sync_token_ttl_seconds, 3600),
        max_sync_token_ttl_seconds: read_secs(&env.max_sync_token_ttl_seconds, 86400),
        oauth_state_ttl_seconds: read_secs(&env.oauth_state_ttl_seconds, 600),
        oauth_redirect_base: base,
        github_client_id: read_str(&env.github_client_id),
        github_client_secret: read_str(&env.github_client_secret),
        google_client_id: read_str(&env.google_client_id),
        google_client_secret: read_str(&env.google_client_secret),
    };
    assert(r@ =~= config_of(*env));
    r
}

/// An environment that sets nothing gives the default tunables.
pub proof fn law_default_config(env: EnvVars)
    requires
        env.session_ttl_seconds is None,
        env.sync_token_ttl_seconds is None,
        env.max_sync_token_ttl_seconds is None,
        env.oauth_state_ttl_seconds is None,
        env.oauth_redirect_base is None,
        env.github_client_id is None,
        env.github_client_secret is None,
        env.google_client_id is None,
        env.google_client_secret is None,
    ensures
        config_of(env) == default_config(),
{
}

/// Whether a value of `AUTO_MIGRATE` asks for migrations.
pub open spec fn asks_to_migrate(v: Option<Seq<char>>) -> bool {
    v matches Some(s) && (s == "true"@ || s == "1"@ || s == "yes"@)
}

/// Migrations are asked for by one of three words, to the letter; a missing
/// value asks for none.
pub proof fn law_asks_to_migrate(s: Seq<char>)
    ensures
        !asks_to_migrate(None),
        asks_to_migrate(Some(s)) <==> s == seq!['t', 'r', 'u', 'e'] || s == seq!['1'] || s == seq![
            'y',
            'e',
            's',
        ],
{
    reveal_strlit("true");
    reveal_strlit("1");
    reveal_strlit("yes");
    assert("true"@ =~= seq!['t', 'r', 'u', 'e']);
    assert("1"@ =~= seq!['1']);
    assert("yes"@ =~= seq!['y', 'e', 's']);
}

/// Whether `AUTO_MIGRATE` asks for migrations on the first request.
pub fn auto_migrate(v: Option<&str>) -> (r: bool)
    ensures
        r == asks_to_migrate(
            match v {
                Some(s) => Some(s@),
                None => None,
            },
        ),
{
    match v {
        Some(s) => str_eq(s, "true") || str_eq(s, "1") || str_eq(s, "yes"),
        None => false,
    }
}

/// The root key that `SESSION_KEY` sets, and the warning where it does not: a
/// deployment without a usable key falls back to the deterministic dev key.
pub fn load_keyring(raw: Option<&str>) -> (r: (Keyring, Option<String>))
    ensures
        ({
            let s = match raw {
                Some(t) => t@,
                None => Seq::<char>::empty(),
            };
            let dev = derived_key(encode_utf8("edgereplica.dev-key.do-not-deploy"@));
            let bytes = key_bytes(base64_standard(trimmed(s)), base64_url_safe(trimmed(s)));
            if trimmed(s).len() == 0 {
                &&& r.0@ == dev
                &&& r.1 matches Some(w) && w@
                    == "SESSION_KEY unset; using deterministic dev key"@
            } else {
                match bytes {
                    Ok(b) => if b.len() == 32 {
                        r.0@ == b && r.1 is None
                    } else {
                        &&& r.0@ == dev
                        &&& r.1 matches Some(w) && w@ == "invalid SESSION_KEY ("@
                            + KeyringError::InvalidLength(b.len() as usize).text()
                            + "); using dev fallback"@
                    },
                    Err(e) => {
                        &&& r.0@ == dev
                        &&& r.1 matches Some(w) && w@ == "invalid SESSION_KEY ("@
                            + ("invalid key base64: "@ + e) + "); using dev fallback"@
                    },
                }
            }
        }),
{
    let raw: &str = match raw {
        Some(t) => t,
        None => "",
    };
    proof {
        reveal_strlit("");
        assert(""@ =~= Seq::<char>::empty());
    }
    if no_text(trim(raw).as_str()) {
        return (
            Keyring::dev_default(),
            Some("SESSION_KEY unset; using deterministic dev key".to_owned()),
        );
    }
    match Keyring::from_base64(raw) {
        Ok(k) => (k, None),
        Err(e) => (
            Keyring::dev_default(),
            Some(
                join3("invalid SESSION_KEY (", e.to_string().as_str(), "); using dev fallback"),
            ),
        ),
    }
}

} // verus!
