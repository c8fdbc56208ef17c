//! Application configuration: where the database lives, how its tables
//! are named, and the network settings; plus the builder that resolves
//! programmatic overrides against the defaults.

use vstd::prelude::*;
use crate::constants::{
    default_user_agent, spec_default_user_agent, CHANNEL_BETA, CHANNEL_NIGHTLY, CHANNEL_STABLE,
    DEFAULT_MAX_CONCURRENCY, DEFAULT_TIMEOUT_SECS,
};
use crate::options::NetworkConfig;
use crate::text::{join_path, joined_path, str_eq};

verus! {

broadcast use vstd::string::group_string_axioms;

/// File name of the standalone database.
pub const DEFAULT_DB_FILENAME: &'static str = "rs-histver.redb";

/// Directory, under the executable's directory, that holds the database.
pub const DEFAULT_DATA_DIR: &'static str = "data";

/// Default prefix of the table names.
pub const DEFAULT_TABLE_PREFIX: &'static str = "rs_histver";

/// The three channels, in the order in which tables are listed and read.
pub open spec fn store_channels() -> Seq<Seq<char>> {
    seq![CHANNEL_STABLE@, CHANNEL_BETA@, CHANNEL_NIGHTLY@]
}

/// A table's name: `{prefix}_{channel}`.
pub open spec fn spec_table_name(prefix: Seq<char>, channel: Seq<char>) -> Seq<char> {
    prefix + "_"@ + channel
}

/// Build the table name `{prefix}_{channel}`.
pub fn table_name(prefix: &str, channel: &str) -> (name: String)
    ensures
        name@ == spec_table_name(prefix@, channel@),
{
    String::from_str(prefix).concat("_").concat(channel)
}

/// Application configuration.
///
/// Holds database and network settings. Create via [`Config::new()`],
/// [`Config::with_db_path()`], or [`ConfigBuilder`].
#[derive(Debug)]
pub struct Config {
    pub database: DatabaseConfig,
    pub network: NetworkConfig,
}

/// Database configuration.
///
/// Determines the database file path, table naming strategy, and whether
/// the database is shared with a host project.
#[derive(Debug)]
pub struct DatabaseConfig {
    pub path: String,
    pub table_prefix: String,
    pub shared: bool,
}

impl Clone for DatabaseConfig {
    fn clone(&self) -> (c: Self)
        ensures
            c == *self,
    {
        DatabaseConfig {
            path: self.path.clone(),
            table_prefix: self.table_prefix.clone(),
            shared: self.shared,
        }
    }
}

impl Clone for Config {
    fn clone(&self) -> (c: Self)
        ensures
            c == *self,
    {
        Config { database: self.database.clone(), network: self.network.clone() }
    }
}

impl DatabaseConfig {
    /// Build the full table name for a given channel.
    ///
    /// Format: `{table_prefix}_{channel}` (e.g. `rs_histver_stable`).
    pub fn table_name_for(&self, channel: &str) -> (name: String)
        ensures
            name@ == spec_table_name(self.table_prefix@, channel@),
    {
        table_name(self.table_prefix.as_str(), channel)
    }

    /// Return table names for all three channels (stable, beta, nightly).
    pub fn all_table_names(&self) -> (names: Vec<String>)
        ensures
            names.len() == 3,
            forall|i: int|
                0 <= i < 3 ==> #[trigger] names@[i]@ == spec_table_name(
                    self.table_prefix@,
                    store_channels()[i],
                ),
    {
        let mut names: Vec<String> = Vec::new();
        names.push(self.table_name_for(CHANNEL_STABLE));
        names.push(self.table_name_for(CHANNEL_BETA));
        names.push(self.table_name_for(CHANNEL_NIGHTLY));
        names
    }

    /// Whether a shared database keeps the default table prefix, so that its
    /// table names may collide with another user of the same file.
    pub fn prefix_may_collide(&self) -> (r: bool)
        ensures
            r == (self.shared && self.table_prefix@ == DEFAULT_TABLE_PREFIX@),
    {
        self.shared && str_eq(self.table_prefix.as_str(), DEFAULT_TABLE_PREFIX)
    }
}

/// The default network part of every configuration.
pub open spec fn default_network(n: NetworkConfig) -> bool {
    &&& n.timeout == DEFAULT_TIMEOUT_SECS
    &&& n.max_concurrency == DEFAULT_MAX_CONCURRENCY
    &&& n.user_agent@ == spec_default_user_agent()
}

/// A standalone configuration with the default prefix and network settings.
pub open spec fn standalone_defaults(c: Config) -> bool {
    &&& c.database.table_prefix@ == DEFAULT_TABLE_PREFIX@
    &&& !c.database.shared
    &&& default_network(c.network)
}

fn default_network_config() -> (n: NetworkConfig)
    ensures
        default_network(n),
{
    NetworkConfig {
        timeout: DEFAULT_TIMEOUT_SECS,
        max_concurrency: DEFAULT_MAX_CONCURRENCY,
        user_agent: default_user_agent(),
    }
}

/// The path `<exe_dir>/data/rs-histver.redb`.
pub open spec fn spec_default_db_path(exe_dir: Seq<char>) -> Seq<char> {
    joined_path(joined_path(exe_dir, DEFAULT_DATA_DIR@), DEFAULT_DB_FILENAME@)
}

/// The default database path: `<exe_dir>/data/rs-histver.redb`, joined with
/// the platform's path rules.
pub fn default_db_path(exe_dir: &str) -> (path: String)
    ensures
        path@ == spec_default_db_path(exe_dir@),
{
    let dir = join_path(exe_dir, DEFAULT_DATA_DIR);
    join_path(dir.as_str(), DEFAULT_DB_FILENAME)
}

impl Config {
    /// Create a new `Config` with default values; the database path is
    /// `<exe_dir>/data/rs-histver.redb` for the given executable directory.
    pub fn new(exe_dir: &str) -> (c: Self)
        ensures
            c.database.path@ == spec_default_db_path(exe_dir@),
            standalone_defaults(c),
    {
        Config {
            database: DatabaseConfig {
                path: default_db_path(exe_dir),
                table_prefix: String::from_str(DEFAULT_TABLE_PREFIX),
                shared: false,
            },
            network: default_network_config(),
        }
    }

    /// Create a `Config` with a custom database file path.
    pub fn with_db_path(db_path: &str) -> (c: Self)
        ensures
            c.database.path@ == db_path@,
            standalone_defaults(c),
    {
        Config {
            database: DatabaseConfig {
                path: String::from_str(db_path),
                table_prefix: String::from_str(DEFAULT_TABLE_PREFIX),
                shared: false,
            },
            network: default_network_config(),
        }
    }

    /// Return the configured database file path.
    pub fn db_path(&self) -> (p: &str)
        ensures
            p@ == self.database.path@,
    {
        self.database.path.as_str()
    }

    /// Create a [`ConfigBuilder`] for fine-grained configuration.
    pub fn builder() -> (b: ConfigBuilder)
        ensures
            b@ == no_overrides(),
    {
        ConfigBuilder::new()
    }
}

/// The overrides a builder holds, as text and numbers.
pub ghost struct Overrides {
    pub db_path: Option<Seq<char>>,
    pub data_dir: Option<Seq<char>>,
    pub db_file: Option<Seq<char>>,
    pub table_prefix: Option<Seq<char>>,
    pub timeout: Option<u64>,
    pub max_concurrency: Option<usize>,
}

/// A builder with nothing overridden.
pub open spec fn no_overrides() -> Overrides {
    Overrides {
        db_path: None,
        data_dir: None,
        db_file: None,
        table_prefix: None,
        timeout: None,
        max_concurrency: None,
    }
}

/// The text of an optional string.
pub open spec fn opt_text(o: Option<String>) -> Option<Seq<char>> {
    match o {
        Some(s) => Some(s@),
        None => None,
    }
}

/// Builder for constructing [`Config`] with flexible overrides.
///
/// Programmatic overrides take priority; defaults fill in the rest.
pub struct ConfigBuilder {
    db_path_override: Option<String>,
    data_dir_override: Option<String>,
    db_file_override: Option<String>,
    table_prefix_override: Option<String>,
    timeout_override: Option<u64>,
    max_concurrency_override: Option<usize>,
}

impl View for ConfigBuilder {
    type V = Overrides;

    closed spec fn view(&self) -> Overrides {
        Overrides {
            db_path: opt_text(self.db_path_override),
            data_dir: opt_text(self.data_dir_override),
            db_file: opt_text(self.db_file_override),
            table_prefix: opt_text(self.table_prefix_override),
            timeout: self.timeout_override,
            max_concurrency: self.max_concurrency_override,
        }
    }
}

impl Default for ConfigBuilder {
    fn default() -> (b: Self)
        ensures
            b@ == no_overrides(),
    {
        Self::new()
    }
}

/// The database path a builder resolves to: the given path; else the given
/// file, or `rs-histver.redb`, in the given directory or `<exe_dir>/data`.
pub open spec fn resolved_db_path(o: Overrides, exe_dir: Seq<char>) -> Seq<char> {
    match o.db_path {
        Some(p) => p,
        None => {
            let dir = match o.data_dir {
                Some(d) => d,
                None => joined_path(exe_dir, DEFAULT_DATA_DIR@),
            };
            match o.db_file {
                Some(f) => joined_path(dir, f),
                None => joined_path(dir, DEFAULT_DB_FILENAME@),
            }
        },
    }
}

/// The configuration a builder resolves to for an executable directory:
/// the path, whether the file is shared (a file name given without a full
/// path), the prefix, and the network settings.
pub open spec fn resolves_to(o: Overrides, exe_dir: Seq<char>, c: Config) -> bool {
    &&& c.database.path@ == resolved_db_path(o, exe_dir)
    &&& c.database.shared == (o.db_path is None && o.db_file is Some)
    &&& c.database.table_prefix@ == (match o.table_prefix {
        Some(p) => p,
        None => DEFAULT_TABLE_PREFIX@,
    })
    &&& c.network.timeout == (match o.timeout {
        Some(t) => t,
        None => DEFAULT_TIMEOUT_SECS,
    })
    &&& c.network.max_concurrency == (match o.max_concurrency {
        Some(m) => m,
        None => DEFAULT_MAX_CONCURRENCY,
    })
    &&& c.network.user_agent@ == spec_default_user_agent()
}

/// Law: the priority of the path overrides. A full path wins over any
/// directory or file name and means standalone mode; a file name alone
/// means shared mode in the given directory; a directory alone holds
/// `rs-histver.redb` in standalone mode.
pub proof fn law_path_override_priority(o: Overrides, exe_dir: Seq<char>, c: Config)
    requires
        resolves_to(o, exe_dir, c),
    ensures
        o.db_path matches Some(p) ==> c.database.path@ == p && !c.database.shared,
        o.db_path is None && o.db_file is Some ==> c.database.shared,
        o.db_path is None && o.db_file is None ==> !c.database.shared,
        o.db_path is None && o.db_file is None && o.data_dir is Some ==> c.database.path@
            == joined_path(o.data_dir->0, DEFAULT_DB_FILENAME@),
        o.db_path is None && o.db_file is Some && o.data_dir is Some ==> c.database.path@
            == joined_path(o.data_dir->0, o.db_file->0),
{
}

impl ConfigBuilder {
    /// Create a new `ConfigBuilder` with no overrides set.
    pub fn new() -> (b: Self)
        ensures
            b@ == no_overrides(),
    {
        ConfigBuilder {
            db_path_override: None,
            data_dir_override: None,
            db_file_override: None,
            table_prefix_override: None,
            timeout_override: None,
            max_concurrency_override: None,
        }
    }

    /// Set a complete database file path (highest priority, standalone mode).
    ///
    /// When set, `data_dir()` and `db_file()` are ignored.
    pub fn db_path(self, path: &str) -> (b: Self)
        ensures
            b@ == (Overrides { db_path: Some(path@), ..self@ }),
    {
        let mut s = self;
        s.db_path_override = Some(String::from_str(path));
        s
    }

    /// Set the data directory for database files.
    ///
    /// Without `db_file()`, the database is `<data_dir>/rs-histver.redb`
    /// (standalone mode); with `db_file()`, `<data_dir>/<db_file>` (shared).
    pub fn data_dir(self, dir: &str) -> (b: Self)
        ensures
            b@ == (Overrides { data_dir: Some(dir@), ..self@ }),
    {
        let mut s = self;
        s.data_dir_override = Some(String::from_str(dir));
        s
    }

    /// Set the database filename for shared mode.
    pub fn db_file(self, file: &str) -> (b: Self)
        ensures
            b@ == (Overrides { db_file: Some(file@), ..self@ }),
    {
        let mut s = self;
        s.db_file_override = Some(String::from_str(file));
        s
    }

    /// Set the prefix for database table names (`{prefix}_{channel}`).
    pub fn table_prefix(self, prefix: &str) -> (b: Self)
        ensures
            b@ == (Overrides { table_prefix: Some(prefix@), ..self@ }),
    {
        let mut s = self;
        s.table_prefix_override = Some(String::from_str(prefix));
        s
    }

    /// Set the HTTP request timeout in seconds. Default: `15`.
    pub fn timeout(self, timeout: u64) -> (b: Self)
        ensures
            b@ == (Overrides { timeout: Some(timeout), ..self@ }),
    {
        let mut s = self;
        s.timeout_override = Some(timeout);
        s
    }

    /// Set the maximum number of concurrent HTTP requests. Default: `10`.
    pub fn max_concurrency(self, max: usize) -> (b: Self)
        ensures
            b@ == (Overrides { max_concurrency: Some(max), ..self@ }),
    {
        let mut s = self;
        s.max_concurrency_override = Some(max);
        s
    }

    /// Build the final [`Config`]: programmatic overrides first, then the
    /// defaults. A directory that is not given is `<exe_dir>/data`.
    ///
    /// - `db_path()` gives the file and standalone mode;
    /// - otherwise `db_file()` gives `<dir>/<db_file>` and shared mode;
    /// - otherwise the file is `<dir>/rs-histver.redb`, standalone.
    pub fn build(self, exe_dir: &str) -> (c: Config)
        ensures
            resolves_to(self@, exe_dir@, c),
    {
        let (db_path, shared) = match self.db_path_override {
            Some(path) => (path, false),
            None => {
                let dir = match self.data_dir_override {
                    Some(d) => d,
                    None => join_path(exe_dir, DEFAULT_DATA_DIR),
                };
                match self.db_file_override {
                    Some(file) => (join_path(dir.as_str(), file.as_str()), true),
                    None => (join_path(dir.as_str(), DEFAULT_DB_FILENAME), false),
                }
            },
        };
        let table_prefix = match self.table_prefix_override {
            Some(p) => p,
            None => String::from_str(DEFAULT_TABLE_PREFIX),
        };
        let timeout = match self.timeout_override {
            Some(t) => t,
            None => DEFAULT_TIMEOUT_SECS,
        };
        let max_concurrency = match self.max_concurrency_override {
            Some(m) => m,
            None => DEFAULT_MAX_CONCURRENCY,
        };
        Config {
            database: DatabaseConfig { path: db_path, table_prefix, shared },
            network: NetworkConfig { timeout, max_concurrency, user_agent: default_user_agent() },
        }
    }
}

} // verus!
