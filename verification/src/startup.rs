//! Start-up choices: which database to open and where it is.
use vstd::prelude::*;
use crate::text::{str_eq, trim};

verus! {

broadcast use vstd::string::group_string_axioms;

/// The database engine.
#[derive(Clone, Copy, Debug, PartialEq, Eq, Structural)]
pub enum DatabaseType {
    Sqlite,
    Postgres,
}

/// The engine to use: the command line's choice, else PostgreSQL when the
/// configuration names it, else SQLite.
pub fn database_type(chosen: Option<DatabaseType>, configured_kind: &str) -> (t: DatabaseType)
    ensures
        t == match chosen {
            Some(c) => c,
            None => if configured_kind@ == "postgres"@ {
                DatabaseType::Postgres
            } else {
                DatabaseType::Sqlite
            },
        },
{
    match chosen {
        Some(c) => c,
        None => if str_eq(configured_kind, "postgres") {
            DatabaseType::Postgres
        } else {
            DatabaseType::Sqlite
        },
    }
}

/// Why start-up cannot go on.
#[derive(Clone, Copy, Debug, PartialEq, Eq, Structural)]
pub enum StartupError {
    /// Export and restore work on PostgreSQL only.
    MaintenanceNeedsPostgres,
    /// No PostgreSQL URL was given anywhere.
    MissingPostgresUrl,
}

impl StartupError {
    /// The message reported for the error.
    pub fn message(self) -> (s: &'static str)
        ensures
            s@ == match self {
                StartupError::MaintenanceNeedsPostgres => "export and restore require PostgreSQL; select --database-type postgres"@,
                StartupError::MissingPostgresUrl => "PostgreSQL requires --database URL, CHAT_ROOM_DATABASE_URL, or database.postgres_url"@,
            },
    {
        match self {
            StartupError::MaintenanceNeedsPostgres => "export and restore require PostgreSQL; select --database-type postgres",
            StartupError::MissingPostgresUrl => "PostgreSQL requires --database URL, CHAT_ROOM_DATABASE_URL, or database.postgres_url",
        }
    }
}

/// A maintenance command (export or restore) needs PostgreSQL.
pub fn check_maintenance(database_type: DatabaseType) -> (r: Result<(), StartupError>)
    ensures
        r is Ok <==> database_type == DatabaseType::Postgres,
        r is Err ==> r == Err::<(), StartupError>(StartupError::MaintenanceNeedsPostgres),
{
    match database_type {
        DatabaseType::Postgres => Ok(()),
        DatabaseType::Sqlite => Err(StartupError::MaintenanceNeedsPostgres),
    }
}

/// The PostgreSQL URL that start-up uses: the command line's, else the
/// environment's, else the configured one.
pub open spec fn chosen_url(argument: Option<Seq<char>>, environment: Option<Seq<char>>, configured: Seq<char>) -> Seq<char> {
    match argument {
        Some(a) => a,
        None => match environment {
            Some(e) => e,
            None => configured,
        },
    }
}

/// Picks the PostgreSQL URL; a blank one is refused.
pub fn postgres_url(argument: Option<String>, environment: Option<String>, configured: &str) -> (r: Result<String, StartupError>)
    ensures
        ({
            let u = chosen_url(
                match argument {
                    Some(a) => Some(a@),
                    None => None,
                },
                match environment {
                    Some(e) => Some(e@),
                    None => None,
                },
                configured@,
            );
            &&& r is Ok <==> trim(u).len() > 0
            &&& r matches Ok(s) ==> s@ == u
            &&& r is Err ==> r == Err::<String, StartupError>(StartupError::MissingPostgresUrl)
        }),
{
    let url = match argument {
        Some(a) => a,
        None => match environment {
            Some(e) => e,
            None => configured.to_owned(),
        },
    };
    let v = crate::text::to_chars(url.as_str());
    let (a, b) = crate::text::trim_bounds(&v);
    proof {
        crate::text::lemma_trim_bounds(v@);
    }
    if a == b {
        Err(StartupError::MissingPostgresUrl)
    } else {
        Ok(url)
    }
}

} // verus!
