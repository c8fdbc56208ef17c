//! How the database file is opened: the shared file or its standalone
//! fallback, and the recreation of an incompatible standalone file. The
//! file-system and database calls are made outside the library, which asks
//! the functions here what to do next with what they returned.

use vstd::prelude::*;
use crate::config::DEFAULT_DB_FILENAME;

verus! {

broadcast use vstd::string::group_string_axioms;

/// The text of `Path::new(path).with_file_name(name)`: the file `name` in the
/// directory of `path`, by std's path rules for the target the library is
/// built for; a function of the two texts.
pub uninterp spec fn sibling_file(path: Seq<char>, name: Seq<char>) -> Seq<char>;

/// Calls `std::path::Path::with_file_name` and returns the path as text
/// (both inputs are text, so the conversion back loses nothing). Claimed:
/// the result is the named sibling path.
#[verifier::external_body]
pub(crate) fn with_file_name(path: &str, name: &str) -> (p: String)
    ensures
        p@ == sibling_file(path@, name@),
{
    std::path::Path::new(path).with_file_name(name).to_string_lossy().into_owned()
}

/// Why opening an existing shared file failed: the file is no redb database
/// of this format (it needs an upgrade, or its storage is corrupted), or
/// anything else.
#[derive(Debug, Clone, Copy, PartialEq, Eq, Structural)]
pub enum OpenFailure {
    NotRedb,
    Other,
}

/// The next thing to do while opening the database.
#[derive(Debug)]
pub enum OpenStep {
    /// Open the existing file at this path.
    Open(String),
    /// Create the file at this path, then open it.
    CreateThenOpen(String),
    /// Give up the shared file and open a standalone database at `path`;
    /// `not_redb` tells whether the shared file was no redb database.
    Fallback { path: String, not_redb: bool },
    /// Delete the incompatible file at this path and create it anew.
    Recreate(String),
    /// Fail with this message.
    Fail(String),
}

/// The first step for a shared database file: open it when it exists,
/// create it otherwise.
pub fn shared_open_step(db_path: &str, exists: bool) -> (s: OpenStep)
    ensures
        exists ==> (s matches OpenStep::Open(p) && p@ == db_path@),
        !exists ==> (s matches OpenStep::CreateThenOpen(p) && p@ == db_path@),
{
    if exists {
        OpenStep::Open(String::from_str(db_path))
    } else {
        OpenStep::CreateThenOpen(String::from_str(db_path))
    }
}

/// When an existing shared file cannot be opened, fall back to the
/// standalone `rs-histver.redb` in the same directory, whatever the failure.
pub fn shared_open_failed(db_path: &str, f: OpenFailure) -> (s: OpenStep)
    ensures
        s matches OpenStep::Fallback { path, not_redb } && path@ == sibling_file(
            db_path@,
            DEFAULT_DB_FILENAME@,
        ) && not_redb == (f == OpenFailure::NotRedb),
{
    OpenStep::Fallback {
        path: with_file_name(db_path, DEFAULT_DB_FILENAME),
        not_redb: f == OpenFailure::NotRedb,
    }
}

/// When creating (or opening) a standalone file fails: a file in an old
/// format is deleted and created anew; any other failure is reported.
pub fn standalone_create_failed(db_path: &str, upgrade_required: bool) -> (s: OpenStep)
    ensures
        upgrade_required ==> (s matches OpenStep::Recreate(p) && p@ == db_path@),
        !upgrade_required ==> (s matches OpenStep::Fail(m) && m@ == "Failed to open database: "@
            + db_path@),
{
    if upgrade_required {
        OpenStep::Recreate(String::from_str(db_path))
    } else {
        OpenStep::Fail(String::from_str("Failed to open database: ").concat(db_path))
    }
}

} // verus!
