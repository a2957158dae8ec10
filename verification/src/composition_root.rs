//! Bringing the core up: the host hands over the directory in which the
//! core keeps its database, once.

use crate::errors::ServicesError;
use vstd::prelude::*;
use vstd::string::*;

verus! {

/// The path of the database file below the directory `db_path`.
pub open spec fn sqlite_path_of(db_path: Seq<char>) -> Seq<char> {
    db_path + "/db.sqlite"@
}

/// Decides a request to bring the core up. The first request is granted,
/// and answered with the path of the database file, which lies in the
/// directory `db_path`. A request that comes when the core is up already is
/// refused.
pub fn bootstrap(db_path: &str, already_bootstrapped: bool) -> (res: Result<String, ServicesError>)
    ensures
        match res {
            Ok(sqlite_path) => !already_bootstrapped && sqlite_path@ == sqlite_path_of(db_path@),
            Err(error) => already_bootstrapped && (error matches ServicesError::General(message)
                && message@ == "Couldn't initialize dependencies"@),
        },
{
    if already_bootstrapped {
        return Err(ServicesError::General(String::from_str("Couldn't initialize dependencies")));
    }
    let mut sqlite_path: String = String::from_str(db_path);
    sqlite_path.append("/db.sqlite");
    Ok(sqlite_path)
}

} // verus!
