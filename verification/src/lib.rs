//! Historical Rust release versions: the verified core of `rs-histver`.
//!
//! The library holds the logic of the tool: channel names and table naming,
//! configuration and its builder, the parsers for the remote data sources
//! (channel TOML manifests, GitHub release pages, `RELEASES.md`), and the
//! ordering, filtering and counting of cached records. Network access, the
//! database file and the terminal live around it and hand their data to the
//! functions here.

pub mod constants;
pub mod text;
pub mod release;
pub mod options;
pub mod config;
pub mod cli;
pub mod fetcher;
pub mod probe;
pub mod stable;
pub mod store;
pub mod opening;

pub use cli::{Channel, Cli, Commands};
pub use config::{Config, ConfigBuilder, DatabaseConfig};
pub use constants::default_user_agent;
pub use fetcher::{
    create_fetcher, BetaFetcher, FetchError, Fetcher, NightlyFetcher, ReleaseFetcher, StableFetcher,
};
pub use options::{FetchOptions, NetworkConfig};
pub use release::RustRelease;
