//! Where the database file lives.

use vstd::prelude::*;

verus! {

/// Calls `Path::join`, from text to text: the directory is read as a path,
/// the name is adjoined to it, and the resulting path is written out as
/// text again.  How a path is joined depends on the platform, so nothing is
/// stated of the result.
#[verifier::external_body]
fn join_path(dir: &str, name: &str) -> String {
    std::path::Path::new(dir).join(name).to_string_lossy().to_string()
}

/// The path of the database file inside the application's data directory.
///
/// Takes the outcome of locating that directory.  A failure is handed on
/// unchanged.  A directory gets the file name `app.db` adjoined by the
/// platform's path rules; that always succeeds.
pub fn get_database_path<E>(app_dir: Result<String, E>) -> (r: Result<String, E>)
    ensures
        match app_dir {
            Ok(_) => r is Ok,
            Err(e) => r == Err::<String, E>(e),
        },
{
    match app_dir {
        Ok(dir) => Ok(join_path(dir.as_str(), "app.db")),
        Err(e) => Err(e),
    }
}

} // verus!
