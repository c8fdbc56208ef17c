//! Channel names, defaults, endpoints and the package identity.

use vstd::prelude::*;

verus! {

/// Stable release channel identifier.
pub const CHANNEL_STABLE: &'static str = "stable";

/// Beta release channel identifier.
pub const CHANNEL_BETA: &'static str = "beta";

/// Nightly release channel identifier.
pub const CHANNEL_NIGHTLY: &'static str = "nightly";

/// Default number of days to probe for beta/nightly history.
pub const DEFAULT_PROBE_DAYS: u32 = 30;

/// Default HTTP request timeout (seconds).
pub const DEFAULT_TIMEOUT_SECS: u64 = 15;

/// Default maximum number of concurrent HTTP requests.
pub const DEFAULT_MAX_CONCURRENCY: usize = 10;

/// Results per page requested from the GitHub Releases API.
pub const GITHUB_PER_PAGE: u32 = 100;

/// Last page fetched from the GitHub Releases API (1500 releases).
pub const GITHUB_MAX_PAGES: u32 = 15;

/// GitHub Releases API endpoint for the Rust language repository.
pub const GITHUB_RELEASES_API: &'static str = "https://api.github.com/repos/rust-lang/rust/releases";

/// Raw RELEASES.md for full historical stable release data.
pub const RELEASES_MD_URL: &'static str = "https://raw.githubusercontent.com/rust-lang/rust/master/RELEASES.md";

/// Base URL for static.rust-lang.org distribution files.
pub const STATIC_DIST_BASE_URL: &'static str = "https://static.rust-lang.org/dist";

/// Package name, used for the User-Agent prefix.
pub const PKG_NAME: &'static str = "rs-histver";

/// Package version, used in the User-Agent.
pub const PKG_VERSION: &'static str = "0.4.0";

/// The default `User-Agent` text: package name, a slash, package version.
pub open spec fn spec_default_user_agent() -> Seq<char> {
    PKG_NAME@ + "/"@ + PKG_VERSION@
}

/// Generate the default `User-Agent` header string, `"rs-histver/0.4.0"`.
pub fn default_user_agent() -> (ua: String)
    ensures
        ua@ == spec_default_user_agent(),
{
    let ua = String::from_str(PKG_NAME);
    let ua = ua.concat("/");
    ua.concat(PKG_VERSION)
}

} // verus!
