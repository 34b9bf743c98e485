//! The sqlite-backed record store.
//!
//! Every operation opens its own connection and closes it on return, so a
//! failure is isolated to one call and never leaves a connection in an
//! indeterminate state for the next one.  What the database file holds
//! depends on the disk, so no contract here names its contents; the
//! verified callers state what holds of every outcome instead.  The
//! intended relational behaviour of the table is stated and proved in
//! `store`.

use vstd::prelude::*;

use crate::errors::StorageError;
use crate::record::SessionData;

verus! {

/// Declares rusqlite's connection handle so that it can stand in
/// signatures; a value of it is opaque here.
#[verifier::external_type_specification]
#[verifier::external_body]
pub struct ExConnection(rusqlite::Connection);

/// Relies on `rusqlite::Connection::open`: opens the database file at
/// `db_path`, creating it when absent, or fails.
#[verifier::external_body]
fn open_connection(db_path: &str) -> (r: Result<rusqlite::Connection, StorageError>)
    ensures
        r matches Err(e) ==> e == StorageError::Unavailable,
{
    rusqlite::Connection::open(db_path).map_err(|_| StorageError::Unavailable)
}

/// Relies on `rusqlite::Connection::execute` running `CREATE TABLE IF NOT
/// EXISTS`: idempotently creates the `session` table, with the workspace
/// path as primary key and the session-file path unique and not null.
#[verifier::external_body]
fn create_schema(conn: &rusqlite::Connection) -> (r: Result<(), StorageError>)
    ensures
        r matches Err(e) ==> e == StorageError::Unavailable,
{
    match conn.execute(
        "CREATE TABLE IF NOT EXISTS session (path TEXT PRIMARY KEY, data TEXT NOT NULL UNIQUE)",
        (),
    ) {
        Ok(_) => Ok(()),
        Err(_) => Err(StorageError::Unavailable),
    }
}

/// Relies on `rusqlite::Connection::execute` running an `INSERT`: adds
/// the row, or adds nothing and fails; sqlite reports a unique-key
/// collision with its constraint-violation error code.
#[verifier::external_body]
fn insert_row(conn: &rusqlite::Connection, record: &SessionData) -> (r: Result<(), StorageError>) {
    match conn.execute(
        "INSERT INTO session (path, data) VALUES (?1, ?2)",
        (&record.path, &record.data),
    ) {
        Ok(_) => Ok(()),
        Err(e) => match e.sqlite_error_code() {
            Some(rusqlite::ErrorCode::ConstraintViolation) => Err(StorageError::ConstraintViolation),
            _ => Err(StorageError::Unavailable),
        },
    }
}

/// Relies on `rusqlite::Connection::query_one` with a `WHERE` equality on
/// the primary key: a returned row is the row whose `path` column equals
/// the queried workspace, and "no row matched" comes back as the
/// query-returned-no-rows error, mapped to `None` here.
#[verifier::external_body]
fn query_row_by_path(conn: &rusqlite::Connection, workspace: &str) -> (r: Result<
    Option<SessionData>,
    StorageError,
>)
    ensures
        r matches Ok(found) ==> (found matches Some(rec) ==> rec.path@ == workspace@),
        r matches Err(e) ==> e == StorageError::Unavailable,
{
    let q = conn.query_one(
        "SELECT path, data FROM session WHERE path = ?1",
        [workspace],
        |row| Ok(SessionData { path: row.get(0)?, data: row.get(1)? }),
    );
    match q {
        Ok(rec) => Ok(Some(rec)),
        Err(rusqlite::Error::QueryReturnedNoRows) => Ok(None),
        Err(_) => Err(StorageError::Unavailable),
    }
}

/// Relies on rusqlite's `prepare` and `Statement::query_map` over a bare
/// `SELECT`: yields the stored rows, in no promised order; a row that
/// fails to convert is skipped.
#[verifier::external_body]
fn list_rows(conn: &rusqlite::Connection) -> (r: Result<Vec<SessionData>, StorageError>)
    ensures
        r matches Err(e) ==> e == StorageError::Unavailable,
{
    let mut stmt = match conn.prepare("SELECT path, data FROM session") {
        Ok(s) => s,
        Err(_) => return Err(StorageError::Unavailable),
    };
    let rows = match stmt.query_map([], |row| {
        Ok(SessionData { path: row.get(0)?, data: row.get(1)? })
    }) {
        Ok(it) => it.filter_map(|x| x.ok()).collect(),
        Err(_) => return Err(StorageError::Unavailable),
    };
    Ok(rows)
}

/// Relies on `rusqlite::Connection::execute` running a `DELETE` with a
/// `WHERE` equality on the primary key: removes the row for that
/// workspace if one exists.
#[verifier::external_body]
fn delete_row_by_path(conn: &rusqlite::Connection, workspace: &str) -> (r: Result<
    (),
    StorageError,
>)
    ensures
        r matches Err(e) ==> e == StorageError::Unavailable,
{
    match conn.execute("DELETE FROM session WHERE path = ?1", [workspace]) {
        Ok(_) => Ok(()),
        Err(_) => Err(StorageError::Unavailable),
    }
}

/// Idempotently creates the table if it is absent.  Safe to call on
/// every startup; any failure is `Unavailable`.
pub fn init_schema(db_path: &str) -> (r: Result<(), StorageError>)
    ensures
        r matches Err(e) ==> e == StorageError::Unavailable,
{
    let conn = open_connection(db_path)?;
    create_schema(&conn)
}

/// Persists one record.  `ConstraintViolation` means the insert collided
/// with an existing unique key — the workspace already has a record, or,
/// vanishingly rarely, the session-file name is taken; nothing is stored
/// then.  There is no upsert: an existing record is never replaced.
pub fn save_session(db_path: &str, record: &SessionData) -> (r: Result<(), StorageError>) {
    let conn = open_connection(db_path)?;
    insert_row(&conn, record)
}

/// Looks up the record for `workspace`.  `None` (not an error) when no
/// row matches; a returned record carries the queried workspace path.
pub fn query_session(db_path: &str, workspace: &str) -> (r: Result<
    Option<SessionData>,
    StorageError,
>)
    ensures
        r matches Ok(found) ==> (found matches Some(rec) ==> rec.path@ == workspace@),
        r matches Err(e) ==> e == StorageError::Unavailable,
{
    let conn = open_connection(db_path)?;
    query_row_by_path(&conn, workspace)
}

/// Full snapshot of the stored records, unordered.
pub fn list_all(db_path: &str) -> (r: Result<Vec<SessionData>, StorageError>)
    ensures
        r matches Err(e) ==> e == StorageError::Unavailable,
{
    let conn = open_connection(db_path)?;
    list_rows(&conn)
}

/// Bulk delete of the records whose workspace path occurs in `keys`,
/// over one connection; used only by reconciliation.  A no-op on an
/// empty key set.
pub fn delete_where_workspace_in(db_path: &str, keys: &Vec<String>) -> (r: Result<
    (),
    StorageError,
>)
    ensures
        keys@.len() == 0 ==> r is Ok,
        r matches Err(e) ==> e == StorageError::Unavailable,
{
    if keys.len() == 0 {
        return Ok(());
    }
    let conn = open_connection(db_path)?;
    let mut i: usize = 0;
    while i < keys.len()
        decreases keys@.len() - i,
    {
        delete_row_by_path(&conn, keys[i].as_str())?;
        i += 1;
    }
    Ok(())
}

} // verus!
