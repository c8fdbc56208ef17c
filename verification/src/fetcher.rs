//! The release fetchers: one per channel, chosen by name, each knowing its
//! channel and its data source. The network work of a fetch runs outside
//! the library and hands its results back to the functions here.

use vstd::prelude::*;
use crate::constants::{CHANNEL_BETA, CHANNEL_NIGHTLY, CHANNEL_STABLE};
use crate::release::RustRelease;
use crate::text::str_eq;

verus! {

broadcast use vstd::string::group_string_axioms;

/// Release fetcher strategy: each channel has its name and its source.
pub trait ReleaseFetcher {
    /// The channel name this fetcher stands for.
    spec fn spec_channel_name(&self) -> Seq<char>;

    /// The description of the data source this fetcher uses.
    spec fn spec_source_description(&self) -> Seq<char>;

    /// Human-readable channel name (e.g. "stable", "beta", "nightly").
    fn channel_name(&self) -> (name: &'static str)
        ensures
            name@ == self.spec_channel_name(),
    ;

    /// Human-readable description of the data source being used.
    fn source_description(&self) -> (desc: &'static str)
        ensures
            desc@ == self.spec_source_description(),
    ;
}

/// Description of the stable source with full history.
pub const SOURCE_RELEASES_MD: &'static str = "RELEASES.md (full history)";

/// Description of the stable source from the GitHub API.
pub const SOURCE_GITHUB_API: &'static str = "GitHub Releases API";

/// Description of the beta and nightly source.
pub const SOURCE_CHANNEL_TOML: &'static str = "Channel TOML date probing";

/// Stable channel fetcher: the GitHub Releases API, or `RELEASES.md` for
/// the full history when `full` is set.
#[derive(Debug, Clone, Copy, PartialEq, Eq, Structural)]
pub struct StableFetcher {
    pub full: bool,
}

/// Beta channel fetcher: probes the channel TOML of the most recent `days`.
#[derive(Debug, Clone, Copy, PartialEq, Eq, Structural)]
pub struct BetaFetcher {
    pub days: u32,
}

/// Nightly channel fetcher: probes the channel TOML of the most recent `days`.
#[derive(Debug, Clone, Copy, PartialEq, Eq, Structural)]
pub struct NightlyFetcher {
    pub days: u32,
}

impl StableFetcher {
    pub fn new(full: bool) -> (f: Self)
        ensures
            f.full == full,
    {
        StableFetcher { full }
    }
}

impl BetaFetcher {
    pub fn new(days: u32) -> (f: Self)
        ensures
            f.days == days,
    {
        BetaFetcher { days }
    }
}

impl NightlyFetcher {
    pub fn new(days: u32) -> (f: Self)
        ensures
            f.days == days,
    {
        NightlyFetcher { days }
    }
}

impl ReleaseFetcher for StableFetcher {
    open spec fn spec_channel_name(&self) -> Seq<char> {
        CHANNEL_STABLE@
    }

    open spec fn spec_source_description(&self) -> Seq<char> {
        if self.full {
            SOURCE_RELEASES_MD@
        } else {
            SOURCE_GITHUB_API@
        }
    }

    fn channel_name(&self) -> (name: &'static str) {
        CHANNEL_STABLE
    }

    fn source_description(&self) -> (desc: &'static str) {
        if self.full {
            SOURCE_RELEASES_MD
        } else {
            SOURCE_GITHUB_API
        }
    }
}

impl ReleaseFetcher for BetaFetcher {
    open spec fn spec_channel_name(&self) -> Seq<char> {
        CHANNEL_BETA@
    }

    open spec fn spec_source_description(&self) -> Seq<char> {
        SOURCE_CHANNEL_TOML@
    }

    fn channel_name(&self) -> (name: &'static str) {
        CHANNEL_BETA
    }

    fn source_description(&self) -> (desc: &'static str) {
        SOURCE_CHANNEL_TOML
    }
}

impl ReleaseFetcher for NightlyFetcher {
    open spec fn spec_channel_name(&self) -> Seq<char> {
        CHANNEL_NIGHTLY@
    }

    open spec fn spec_source_description(&self) -> Seq<char> {
        SOURCE_CHANNEL_TOML@
    }

    fn channel_name(&self) -> (name: &'static str) {
        CHANNEL_NIGHTLY
    }

    fn source_description(&self) -> (desc: &'static str) {
        SOURCE_CHANNEL_TOML
    }
}

/// The fetcher for one of the three channels.
#[derive(Debug, Clone, Copy, PartialEq, Eq, Structural)]
pub enum Fetcher {
    Stable(StableFetcher),
    Beta(BetaFetcher),
    Nightly(NightlyFetcher),
}

impl ReleaseFetcher for Fetcher {
    open spec fn spec_channel_name(&self) -> Seq<char> {
        match self {
            Fetcher::Stable(f) => f.spec_channel_name(),
            Fetcher::Beta(f) => f.spec_channel_name(),
            Fetcher::Nightly(f) => f.spec_channel_name(),
        }
    }

    open spec fn spec_source_description(&self) -> Seq<char> {
        match self {
            Fetcher::Stable(f) => f.spec_source_description(),
            Fetcher::Beta(f) => f.spec_source_description(),
            Fetcher::Nightly(f) => f.spec_source_description(),
        }
    }

    fn channel_name(&self) -> (name: &'static str) {
        match self {
            Fetcher::Stable(f) => f.channel_name(),
            Fetcher::Beta(f) => f.channel_name(),
            Fetcher::Nightly(f) => f.channel_name(),
        }
    }

    fn source_description(&self) -> (desc: &'static str) {
        match self {
            Fetcher::Stable(f) => f.source_description(),
            Fetcher::Beta(f) => f.source_description(),
            Fetcher::Nightly(f) => f.source_description(),
        }
    }
}

/// Why a fetch could not produce releases.
#[derive(Debug)]
pub enum FetchError {
    /// The channel name is none of stable, beta, nightly.
    UnknownChannel(String),
    /// The remote source gave no release for the channel.
    NoData(String),
}

/// The text of a fetch error.
pub open spec fn fetch_error_message(e: FetchError) -> Seq<char> {
    match e {
        FetchError::UnknownChannel(c) => "Unknown channel: '"@ + c@
            + "'. Must be one of: stable, beta, nightly"@,
        FetchError::NoData(c) => "No "@ + c@ + " release data found"@,
    }
}

impl FetchError {
    /// The error's message.
    pub fn message(&self) -> (m: String)
        ensures
            m@ == fetch_error_message(*self),
    {
        match self {
            FetchError::UnknownChannel(c) => String::from_str("Unknown channel: '").concat(
                c.as_str(),
            ).concat("'. Must be one of: stable, beta, nightly"),
            FetchError::NoData(c) => String::from_str("No ").concat(c.as_str()).concat(
                " release data found",
            ),
        }
    }
}

/// The fetcher that `create_fetcher` picks for a channel name.
pub open spec fn spec_create_fetcher(channel: Seq<char>, full: bool, days: u32) -> Option<Fetcher> {
    if channel == CHANNEL_STABLE@ {
        Some(Fetcher::Stable(StableFetcher { full }))
    } else if channel == CHANNEL_BETA@ {
        Some(Fetcher::Beta(BetaFetcher { days }))
    } else if channel == CHANNEL_NIGHTLY@ {
        Some(Fetcher::Nightly(NightlyFetcher { days }))
    } else {
        None
    }
}

/// Factory: create the fetcher for a channel.
///
/// - `channel`: one of `"stable"`, `"beta"`, or `"nightly"` (exact case).
/// - `full`: the stable fetcher uses RELEASES.md full history instead of the GitHub API.
/// - `days`: how many days of history to probe (beta/nightly only).
///
/// Any other channel name is refused with [`FetchError::UnknownChannel`].
pub fn create_fetcher(channel: &str, full: bool, days: u32) -> (r: Result<Fetcher, FetchError>)
    ensures
        match spec_create_fetcher(channel@, full, days) {
            Some(f) => r == Ok::<Fetcher, FetchError>(f),
            None => r matches Err(FetchError::UnknownChannel(c)) && c@ == channel@,
        },
        channel@ == "stable"@ ==> r == Ok::<Fetcher, FetchError>(Fetcher::Stable(StableFetcher { full })),
        channel@ == "beta"@ ==> r == Ok::<Fetcher, FetchError>(Fetcher::Beta(BetaFetcher { days })),
        channel@ == "nightly"@ ==> r == Ok::<Fetcher, FetchError>(
            Fetcher::Nightly(NightlyFetcher { days }),
        ),
{
    proof {
        law_created_fetcher_keeps_options(channel@, full, days);
    }
    if str_eq(channel, CHANNEL_STABLE) {
        Ok(Fetcher::Stable(StableFetcher::new(full)))
    } else if str_eq(channel, CHANNEL_BETA) {
        Ok(Fetcher::Beta(BetaFetcher::new(days)))
    } else if str_eq(channel, CHANNEL_NIGHTLY) {
        Ok(Fetcher::Nightly(NightlyFetcher::new(days)))
    } else {
        Err(FetchError::UnknownChannel(String::from_str(channel)))
    }
}

/// The releases a channel probe found, or [`FetchError::NoData`] when it
/// found none.
pub fn require_releases(channel: &str, releases: Vec<RustRelease>) -> (r: Result<
    Vec<RustRelease>,
    FetchError,
>)
    ensures
        releases@.len() > 0 ==> r == Ok::<Vec<RustRelease>, FetchError>(releases),
        releases@.len() == 0 ==> (r matches Err(FetchError::NoData(c)) && c@ == channel@),
{
    if releases.len() == 0 {
        Err(FetchError::NoData(String::from_str(channel)))
    } else {
        Ok(releases)
    }
}

/// Law: the fetcher created for a channel reports that channel as its name.
pub proof fn law_created_fetcher_names_its_channel(channel: Seq<char>, full: bool, days: u32)
    ensures
        spec_create_fetcher(channel, full, days) matches Some(f) ==> f.spec_channel_name()
            == channel,
{
}

/// Law: exactly the names stable, beta and nightly are accepted; the stable
/// fetcher keeps the full-history choice, and the beta and nightly fetchers
/// probe exactly the number of days asked for.
pub proof fn law_created_fetcher_keeps_options(channel: Seq<char>, full: bool, days: u32)
    ensures
        spec_create_fetcher(channel, full, days) is Some <==> (channel == "stable"@ || channel
            == "beta"@ || channel == "nightly"@),
        channel == "stable"@ ==> spec_create_fetcher(channel, full, days) == Some(
            Fetcher::Stable(StableFetcher { full }),
        ),
        channel == "beta"@ ==> spec_create_fetcher(channel, full, days) == Some(
            Fetcher::Beta(BetaFetcher { days }),
        ),
        channel == "nightly"@ ==> spec_create_fetcher(channel, full, days) == Some(
            Fetcher::Nightly(NightlyFetcher { days }),
        ),
{
    reveal_strlit("stable");
    reveal_strlit("beta");
    reveal_strlit("nightly");
    assert("stable"@.len() == 6 && "beta"@.len() == 4 && "nightly"@.len() == 7);
}

} // verus!
