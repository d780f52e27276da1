//! Per-request application state.

use vstd::prelude::*;

use super::config::{Config, ConfigView};
use crate::shared::auth::keyring::Keyring;
use crate::shared::clock::Clock;
use crate::shared::repo::Repo;

verus! {

/// Whether a lifetime in seconds can be added to any time in seconds that a
/// clock of milliseconds shows.
pub open spec fn ttl_fits(ttl_seconds: i64) -> bool {
    -9214148664817921032 <= ttl_seconds <= 9214148664817921032
}

impl ConfigView {
    /// Whether every token lifetime fits.
    pub open spec fn ttls_fit(self) -> bool {
        ttl_fits(self.session_ttl_seconds) && ttl_fits(self.sync_token_ttl_seconds) && ttl_fits(
            self.max_sync_token_ttl_seconds,
        )
    }
}

impl Config {
    /// Whether every token lifetime can be added to the time: a deployment
    /// with one that cannot must not serve.
    pub fn ttls_fit(&self) -> (r: bool)
        ensures
            r == self@.ttls_fit(),
    {
        let limit: i64 = 9214148664817921032;
        -limit <= self.session_ttl_seconds && self.session_ttl_seconds <= limit && -limit
            <= self.sync_token_ttl_seconds && self.sync_token_ttl_seconds <= limit && -limit
            <= self.max_sync_token_ttl_seconds && self.max_sync_token_ttl_seconds <= limit
    }
}

/// What every service reads through.
pub struct AppState<R: Repo, C: Clock> {
    pub repo: R,
    pub keyring: Keyring,
    pub clock: C,
    pub config: Config,
}

impl<R: Repo, C: Clock> AppState<R, C> {
    /// Whether the storage is usable and the token lifetimes fit.
    pub open spec fn valid(&self) -> bool {
        self.repo.valid() && self.config@.ttls_fit()
    }

    /// Whether `later` differs in its storage at most.
    pub open spec fn same_but_repo(&self, later: &Self) -> bool {
        later.keyring == self.keyring && later.clock == self.clock && later.config == self.config
            && later.repo.reliable() == self.repo.reliable()
    }
}

} // verus!
