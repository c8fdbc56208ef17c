//! Options for fetching release data, and the network settings derived
//! from them.

use std::time::Duration;
use vstd::prelude::*;
use crate::constants::{
    default_user_agent, spec_default_user_agent, DEFAULT_MAX_CONCURRENCY, DEFAULT_PROBE_DAYS,
    DEFAULT_TIMEOUT_SECS,
};

verus! {

/// The whole seconds of a `Duration`, as `Duration::as_secs` returns them.
pub uninterp spec fn duration_secs(d: Duration) -> u64;

/// The duration `Duration::from_secs` builds: `secs` seconds and no
/// fraction of a second.
pub uninterp spec fn secs_duration(secs: u64) -> Duration;

/// Calls `Duration::from_secs`. Claimed: the result is the named duration of
/// `secs` seconds, and it has exactly `secs` whole seconds, as the std
/// documentation of `from_secs` and `as_secs` says.
#[verifier::external_body]
fn duration_from_secs(secs: u64) -> (d: Duration)
    ensures
        d == secs_duration(secs),
        duration_secs(d) == secs,
{
    Duration::from_secs(secs)
}

/// Calls `Duration::as_secs`. Claimed: it returns the named whole seconds.
#[verifier::external_body]
fn duration_as_secs(d: &Duration) -> (secs: u64)
    ensures
        secs == duration_secs(*d),
{
    d.as_secs()
}

/// Options for fetching Rust release data.
///
/// All fields have defaults, so `FetchOptions::new()` gives a usable
/// starting configuration.
#[derive(Debug)]
pub struct FetchOptions {
    /// Stable channel: use RELEASES.md for full historical data (default: false = GitHub API)
    pub full_history: bool,
    /// Beta/Nightly channels: probe recent N days (default: 30)
    pub probe_days: u32,
    /// HTTP request timeout (default: 15 seconds)
    pub timeout: Duration,
    /// Maximum concurrent HTTP requests (default: 10)
    pub max_concurrency: usize,
    /// User-Agent header string
    pub user_agent: String,
}

impl Clone for FetchOptions {
    fn clone(&self) -> (o: Self)
        ensures
            o == *self,
    {
        FetchOptions {
            full_history: self.full_history,
            probe_days: self.probe_days,
            timeout: self.timeout,
            max_concurrency: self.max_concurrency,
            user_agent: self.user_agent.clone(),
        }
    }
}

/// The default fetch options.
pub open spec fn default_fetch_options(o: FetchOptions) -> bool {
    &&& !o.full_history
    &&& o.probe_days == DEFAULT_PROBE_DAYS
    &&& o.timeout == secs_duration(DEFAULT_TIMEOUT_SECS)
    &&& duration_secs(o.timeout) == DEFAULT_TIMEOUT_SECS
    &&& o.max_concurrency == DEFAULT_MAX_CONCURRENCY
    &&& o.user_agent@ == spec_default_user_agent()
}

impl Default for FetchOptions {
    fn default() -> (o: Self)
        ensures
            default_fetch_options(o),
    {
        FetchOptions {
            full_history: false,
            probe_days: DEFAULT_PROBE_DAYS,
            timeout: duration_from_secs(DEFAULT_TIMEOUT_SECS),
            max_concurrency: DEFAULT_MAX_CONCURRENCY,
            user_agent: default_user_agent(),
        }
    }
}

impl FetchOptions {
    /// Create a new `FetchOptions` with default values.
    pub fn new() -> (o: Self)
        ensures
            default_fetch_options(o),
    {
        Self::default()
    }

    /// Enable RELEASES.md full history mode (stable only).
    pub fn full_history(self, v: bool) -> (o: Self)
        ensures
            o == (FetchOptions { full_history: v, ..self }),
    {
        let mut s = self;
        s.full_history = v;
        s
    }

    /// Set the number of days to probe for beta/nightly channels.
    pub fn probe_days(self, days: u32) -> (o: Self)
        ensures
            o == (FetchOptions { probe_days: days, ..self }),
    {
        let mut s = self;
        s.probe_days = days;
        s
    }

    /// Set the HTTP request timeout.
    pub fn timeout(self, d: Duration) -> (o: Self)
        ensures
            o == (FetchOptions { timeout: d, ..self }),
    {
        let mut s = self;
        s.timeout = d;
        s
    }

    /// Set the maximum number of concurrent HTTP requests.
    pub fn max_concurrency(self, n: usize) -> (o: Self)
        ensures
            o == (FetchOptions { max_concurrency: n, ..self }),
    {
        let mut s = self;
        s.max_concurrency = n;
        s
    }

    /// Set a custom User-Agent header.
    pub fn user_agent(self, ua: &str) -> (o: Self)
        ensures
            o.user_agent@ == ua@,
            o == (FetchOptions { user_agent: o.user_agent, ..self }),
    {
        let mut s = self;
        s.user_agent = String::from_str(ua);
        s
    }
}

/// Network configuration for HTTP fetcher requests.
///
/// Derived from [`FetchOptions`] with `From`, or built with
/// [`NetworkConfig::new()`] and its setters.
#[derive(Debug)]
pub struct NetworkConfig {
    /// Request timeout in seconds.
    pub timeout: u64,
    /// Maximum concurrent requests.
    pub max_concurrency: usize,
    /// User-Agent header sent with each request.
    pub user_agent: String,
}

impl Clone for NetworkConfig {
    fn clone(&self) -> (n: Self)
        ensures
            n == *self,
    {
        NetworkConfig {
            timeout: self.timeout,
            max_concurrency: self.max_concurrency,
            user_agent: self.user_agent.clone(),
        }
    }
}

/// The default network settings.
pub open spec fn default_network_config(n: NetworkConfig) -> bool {
    &&& n.timeout == DEFAULT_TIMEOUT_SECS
    &&& n.max_concurrency == DEFAULT_MAX_CONCURRENCY
    &&& n.user_agent@ == spec_default_user_agent()
}

impl Default for NetworkConfig {
    fn default() -> (n: Self)
        ensures
            default_network_config(n),
    {
        NetworkConfig {
            timeout: DEFAULT_TIMEOUT_SECS,
            max_concurrency: DEFAULT_MAX_CONCURRENCY,
            user_agent: default_user_agent(),
        }
    }
}

impl NetworkConfig {
    /// Create a new `NetworkConfig` with default values.
    pub fn new() -> (n: Self)
        ensures
            default_network_config(n),
    {
        Self::default()
    }

    /// Set the HTTP request timeout in seconds.
    pub fn timeout_secs(self, secs: u64) -> (n: Self)
        ensures
            n == (NetworkConfig { timeout: secs, ..self }),
    {
        let mut s = self;
        s.timeout = secs;
        s
    }

    /// Set the maximum number of concurrent HTTP requests.
    pub fn max_concurrency(self, max: usize) -> (n: Self)
        ensures
            n == (NetworkConfig { max_concurrency: max, ..self }),
    {
        let mut s = self;
        s.max_concurrency = max;
        s
    }

    /// Set a custom User-Agent header.
    pub fn user_agent(self, ua: &str) -> (n: Self)
        ensures
            n.user_agent@ == ua@,
            n == (NetworkConfig { user_agent: n.user_agent, ..self }),
    {
        let mut s = self;
        s.user_agent = String::from_str(ua);
        s
    }
}

/// The network settings that a set of fetch options stands for: the
/// timeout in whole seconds, the concurrency limit and the User-Agent.
pub open spec fn network_from_options(opts: FetchOptions) -> NetworkConfig {
    NetworkConfig {
        timeout: duration_secs(opts.timeout),
        max_concurrency: opts.max_concurrency,
        user_agent: opts.user_agent,
    }
}

impl<'a> From<&'a FetchOptions> for NetworkConfig {
    fn from(opts: &'a FetchOptions) -> (n: Self) {
        NetworkConfig {
            timeout: duration_as_secs(&opts.timeout),
            max_concurrency: opts.max_concurrency,
            user_agent: opts.user_agent.clone(),
        }
    }
}

impl<'a> vstd::std_specs::convert::FromSpecImpl<&'a FetchOptions> for NetworkConfig {
    open spec fn obeys_from_spec() -> bool {
        true
    }

    open spec fn from_spec(opts: &'a FetchOptions) -> NetworkConfig {
        network_from_options(*opts)
    }
}

} // verus!
