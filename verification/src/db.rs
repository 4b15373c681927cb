//! Where the audit log is kept.

use vstd::prelude::*;
use vstd::string::StringExecFns;

verus! {

/// The path of the database file: the configured one, or `data.db3` in the application's
/// home directory.
pub open spec fn database_path(configured_path: Option<Seq<char>>, home_dir: Seq<char>) -> Seq<char> {
    match configured_path {
        Some(file) => file,
        None => home_dir + "/data.db3"@,
    }
}

/// Gives the path of the database file. `home_dir` is read only where no path is
/// configured.
pub fn get_database_path(configured_path: Option<String>, home_dir: &str) -> (path: String)
    ensures
        path@ == database_path(
            match configured_path {
                Some(file) => Some(file@),
                None => None,
            },
            home_dir@,
        ),
{
    if let Some(file) = configured_path {
        file
    } else {
        home_dir.to_owned().concat("/data.db3")
    }
}

} // verus!
