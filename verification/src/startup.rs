//! Where the state database is, and what a run is about.

use crate::error::ArchiveError;
use crate::model;
use crate::text;
use vstd::prelude::*;

verus! {

/// The name of the state database in the Codex home directory.
pub const STATE_DATABASE: &'static str = "state_5.sqlite";

/// The path of the Codex home directory, segment by segment, where none is
/// asked for: `codex_home` from the environment, or else `.codex` in the user's
/// `home`, which is the current directory if the environment has none.
pub fn default_codex_home(codex_home: Option<String>, home: Option<String>) -> (r: Vec<String>)
    ensures
        text::texts(r@) == (match codex_home {
            Some(codex_home) => seq![codex_home@],
            None => match home {
                Some(home) => seq![home@, ".codex"@],
                None => seq!["."@, ".codex"@],
            },
        }),
{
    let mut segments: Vec<String> = Vec::new();
    match codex_home {
        Some(codex_home) => {
            segments.push(codex_home);
        },
        None => {
            match home {
                Some(home) => segments.push(home),
                None => segments.push(".".to_owned()),
            }
            segments.push(".codex".to_owned());
        },
    }
    assert(text::texts(segments@) =~= (match codex_home {
        Some(codex_home) => seq![codex_home@],
        None => match home {
            Some(home) => seq![home@, ".codex"@],
            None => seq!["."@, ".codex"@],
        },
    }));
    segments
}

/// The parent thread that a run asks for: the one given, or else the one from
/// the environment.
pub fn requested_parent(given: Option<String>, environment: Option<String>) -> (r: Option<String>)
    ensures
        model::optional_view(r) == (match given {
            Some(given) => Some(given@),
            None => model::optional_view(environment),
        }),
{
    match given {
        Some(given) => Some(given),
        None => environment,
    }
}

/// Fails unless there is a state database at `db_path`.
pub fn ensure_db_exists(db_path: &str, exists: bool) -> (r: Result<(), ArchiveError>)
    ensures
        match r {
            Ok(_) => exists,
            Err(ArchiveError::DatabaseMissing { path }) => !exists && path@ == db_path@,
            Err(_) => false,
        },
{
    if !exists {
        return Err(ArchiveError::DatabaseMissing { path: db_path.to_owned() });
    }
    Ok(())
}

/// The message about candidates that cannot be loaded from `db_path`.
pub fn load_failure(db_path: &str, error: &ArchiveError) -> (r: String)
    ensures
        r@ == "failed to load candidates from "@ + db_path@ + ": "@ + error.text(),
{
    "failed to load candidates from ".to_owned().concat(db_path).concat(": ").concat(
        error.message().as_str(),
    )
}

/// A Codex home directory from the environment is taken as it is. Else it is
/// `.codex` in the user's home, or in the current directory without one.
pub proof fn law_where_the_home_directory_is(
    codex_home: Option<String>,
    home: Option<String>,
    r: Vec<String>,
)
    requires
        call_ensures(default_codex_home, (codex_home, home), r),
    ensures
        codex_home matches Some(given) ==> r@.len() == 1 && r@[0]@ == given@,
        codex_home is None ==> r@.len() == 2 && r@[1]@ == ".codex"@ && r@[0]@ == match home {
            Some(home) => home@,
            None => "."@,
        },
{
    let segments = text::texts(r@);
    assert(segments.len() == r@.len());
    assert(forall|i: int| 0 <= i < r@.len() ==> segments[i] == (#[trigger] r@[i])@);
}

/// A parent that is given goes before the one from the environment, which counts
/// only without one.
pub proof fn law_which_parent_is_asked_for(
    given: Option<String>,
    environment: Option<String>,
    r: Option<String>,
)
    requires
        call_ensures(requested_parent, (given, environment), r),
    ensures
        r is Some <==> given is Some || environment is Some,
        given matches Some(parent) ==> r matches Some(told) && told@ == parent@,
        given is None ==> (environment matches Some(parent) ==> r matches Some(told) && told@
            == parent@),
{
}

/// A run goes on exactly where the database is there, and else names the path.
pub proof fn law_the_database_has_to_exist(
    db_path: &str,
    exists: bool,
    r: Result<(), ArchiveError>,
)
    requires
        call_ensures(ensure_db_exists, (db_path, exists), r),
    ensures
        r is Ok <==> exists,
        r matches Err(error) ==> error matches ArchiveError::DatabaseMissing { path } && path@
            == db_path@,
{
}

/// A failure to load names the database and ends in the failure's own message.
pub proof fn law_load_failures_are_told(
    db_path: &str,
    error: &ArchiveError,
    r: String,
    message: String,
)
    requires
        call_ensures(load_failure, (db_path, error), r),
        call_ensures(ArchiveError::message, (error,), message),
    ensures
        r@ == "failed to load candidates from "@ + db_path@ + ": "@ + message@,
{
}

} // verus!
