//! The session manager: the registry's host-facing entry points.
//!
//! The host supplies the resolved registry location, the current
//! workspace, and — for reconciliation — the filesystem facts (which
//! record files exist, and which session-artifact files the plugin
//! directory holds).  Dispatching the returned save command, creating
//! the plugin directory and unlinking orphaned files are the host's
//! part.

use vstd::prelude::*;
use vstd::string::StringExecFns;

use crate::db;
use crate::errors::StorageError;
use crate::namer::{generate_random_string, is_token};
use crate::paths::{session_file_path, spec_session_file, SessionPath};
use crate::reconcile::{live_of, orphan_files, orphans_spec, partition_stale, stale_paths_of};
use crate::record::{SessionData, SpecRecord};
use crate::store::rows_view;

verus! {

/// Length of a generated session-file base name.
pub const TOKEN_LENGTH: usize = 8;

/// What get-or-create found or did for a workspace.
pub enum SessionOutcome {
    /// A record already existed; it is returned unchanged.
    Existing(SessionData),
    /// No record existed; this freshly named one was persisted.
    Created(SessionData),
}

/// The record carried by an outcome.
pub open spec fn outcome_record(o: SessionOutcome) -> SpecRecord {
    match o {
        SessionOutcome::Existing(rec) => rec@,
        SessionOutcome::Created(rec) => rec@,
    }
}

/// What a successful get-or-create promises for `workspace` under the
/// plugin directory `plugin`: the record carries the queried workspace
/// path, and a freshly created record points at a session file named by
/// a token under the plugin directory.
pub open spec fn outcome_ok(o: SessionOutcome, plugin: Seq<char>, workspace: Seq<char>) -> bool {
    match o {
        SessionOutcome::Existing(rec) => rec.path@ == workspace,
        SessionOutcome::Created(rec) => {
            &&& rec.path@ == workspace
            &&& exists|t: Seq<char>|
                is_token(t, TOKEN_LENGTH as int) && rec.data@ == spec_session_file(plugin, t)
        },
    }
}

impl SessionOutcome {
    /// The record carried by either outcome.
    pub fn into_record(self) -> (r: SessionData)
        ensures
            r@ == match self {
                SessionOutcome::Existing(rec) => rec@,
                SessionOutcome::Created(rec) => rec@,
            },
    {
        match self {
            SessionOutcome::Existing(rec) => rec,
            SessionOutcome::Created(rec) => rec,
        }
    }
}

/// Get-or-create for `workspace`: on a hit the stored record comes back
/// unchanged; on a miss a record pointing at a freshly named session
/// file under the plugin directory is persisted and returned.  The
/// session artifact itself is not written here — that is the host's
/// move once it has the path.
pub fn get_or_create_session(location: &SessionPath, workspace: &str) -> (r: Result<
    SessionOutcome,
    StorageError,
>)
    ensures
        r matches Ok(o) ==> outcome_ok(o, location.plugin@, workspace@),
{
    let found = db::query_session(location.database.as_str(), workspace)?;
    match found {
        Some(rec) => Ok(SessionOutcome::Existing(rec)),
        None => {
            let token = generate_random_string(TOKEN_LENGTH);
            let data = session_file_path(location.plugin.as_str(), token.as_str());
            let rec = SessionData { path: String::from_str(workspace), data };
            db::save_session(location.database.as_str(), &rec)?;
            proof {
                assert(is_token(token@, TOKEN_LENGTH as int) && rec.data@ == spec_session_file(
                    location.plugin@,
                    token@,
                ));
            }
            Ok(SessionOutcome::Created(rec))
        },
    }
}

/// The host command that serializes the current editor state into the
/// session file at `data`.
pub fn save_command(data: &str) -> (r: String)
    ensures
        r@ == "mks! "@ + data@,
{
    String::from_str("mks! ").concat(data)
}

/// Get-or-create for `workspace`, returning the save command for its
/// session file, ready for the host to dispatch.
pub fn make_session(location: &SessionPath, workspace: &str) -> (r: Result<String, StorageError>)
    ensures
        r matches Ok(cmd) ==> exists|o: SessionOutcome|
            #[trigger] outcome_ok(o, location.plugin@, workspace@) && cmd@ == "mks! "@
                + outcome_record(o).data,
{
    let outcome = get_or_create_session(location, workspace)?;
    let ghost o = outcome;
    let rec = outcome.into_record();
    let cmd = save_command(rec.data.as_str());
    proof {
        assert(outcome_ok(o, location.plugin@, workspace@) && cmd@ == "mks! "@
            + outcome_record(o).data);
    }
    Ok(cmd)
}

/// Full snapshot of the stored records; a direct passthrough to the
/// record store.
pub fn session_list(location: &SessionPath) -> (r: Result<Vec<SessionData>, StorageError>)
    ensures
        r matches Err(e) ==> e == StorageError::Unavailable,
{
    db::list_all(location.database.as_str())
}

/// Reconciliation: `records` is a snapshot of the store, `present[i]`
/// says whether the session file of `records[i]` exists on disk, and
/// `listed` holds the session-artifact files found in the plugin
/// directory.  The records whose file is gone are deleted from the
/// store (in one bulk operation, skipped entirely when nothing is
/// stale), and the listed files that no surviving record points at are
/// returned for the caller to unlink, one by one, tolerating individual
/// failures.
pub fn clean_session(
    location: &SessionPath,
    records: &Vec<SessionData>,
    present: &Vec<bool>,
    listed: &Vec<String>,
) -> (r: Result<Vec<String>, StorageError>)
    requires
        present@.len() == records@.len(),
    ensures
        stale_paths_of(rows_view(records@), present@).len() == 0 ==> r is Ok,
        r matches Ok(orphans) ==> orphans@.map_values(|s: String| s@) == orphans_spec(
            listed@.map_values(|s: String| s@),
            live_of(rows_view(records@), present@),
        ),
        r matches Err(e) ==> e == StorageError::Unavailable,
{
    let (stale, live) = partition_stale(records, present);
    if stale.len() > 0 {
        db::delete_where_workspace_in(location.database.as_str(), &stale)?;
    }
    Ok(orphan_files(listed, &live))
}

/// Creates the schema at the resolved database location; the plugin
/// directory must already exist.  Any storage failure surfaces as
/// `Unavailable` and the next call simply retries — nothing is cached.
pub fn init_database(location: &SessionPath) -> (r: Result<(), StorageError>)
    ensures
        r matches Err(e) ==> e == StorageError::Unavailable,
{
    db::init_schema(location.database.as_str())
}

} // verus!
