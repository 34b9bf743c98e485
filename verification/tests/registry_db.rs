use session_registry::db;
use session_registry::errors::StorageError;
use session_registry::paths::SessionPath;
use session_registry::record::SessionData;
use session_registry::session;

/// Empties the table at `db_path` through the store's own operations,
/// so a test starts from a clean slate even when the file is left over
/// from an earlier run.
fn reset(db_path: &str) {
    db::init_schema(db_path).unwrap();
    let rows = db::list_all(db_path).unwrap();
    let keys: Vec<String> = rows.into_iter().map(|r| r.path).collect();
    db::delete_where_workspace_in(db_path, &keys).unwrap();
    assert_eq!(db::list_all(db_path).unwrap().len(), 0);
}

#[test]
fn schema_init_is_idempotent() {
    let db_path = "/tmp/session_registry_schema_test.sqlite";
    db::init_schema(db_path).unwrap();
    db::init_schema(db_path).unwrap();
}

#[test]
fn storage_unavailable_when_directory_missing() {
    let db_path = "/tmp/session_registry_no_such_dir/deeper/db.sqlite";
    assert_eq!(db::init_schema(db_path), Err(StorageError::Unavailable));
}

#[test]
fn save_query_and_conflicts() {
    let db_path = "/tmp/session_registry_store_test.sqlite";
    reset(db_path);
    let rec = SessionData { path: String::from("/proj/a"), data: String::from("/tmp/a.vim") };
    db::save_session(db_path, &rec).unwrap();

    let found = db::query_session(db_path, "/proj/a").unwrap().unwrap();
    assert_eq!(found.path, "/proj/a");
    assert_eq!(found.data, "/tmp/a.vim");
    assert!(db::query_session(db_path, "/proj/missing").unwrap().is_none());

    // Same workspace again: the primary key rejects it.
    let dup_key = SessionData { path: String::from("/proj/a"), data: String::from("/tmp/b.vim") };
    assert_eq!(db::save_session(db_path, &dup_key), Err(StorageError::ConstraintViolation));
    // Same session file for another workspace: the unique column rejects it.
    let dup_data = SessionData { path: String::from("/proj/b"), data: String::from("/tmp/a.vim") };
    assert_eq!(db::save_session(db_path, &dup_data), Err(StorageError::ConstraintViolation));

    assert_eq!(db::list_all(db_path).unwrap().len(), 1);
}

#[test]
fn registry_scenario_make_list_clean() {
    // A workspace gets a session; the listing shows one row; after its
    // file disappears, reconciliation removes the row and the listing
    // is empty again.
    let location = SessionPath {
        plugin: String::from("/tmp"),
        database: String::from("/tmp/session_registry_scenario_test.sqlite"),
    };
    session::init_database(&location).unwrap();
    reset(location.database.as_str());

    let cmd = session::make_session(&location, "/proj/a").unwrap();
    assert!(cmd.starts_with("mks! /tmp/"));
    assert!(cmd.ends_with(".vim"));

    let rows = session::session_list(&location).unwrap();
    assert_eq!(rows.len(), 1);
    assert_eq!(rows[0].path, "/proj/a");
    let data = rows[0].data.clone();
    assert_eq!(cmd, format!("mks! {}", data));

    // The session file was "deleted out-of-band": its record goes, and
    // no listed file needs unlinking.
    let orphans = session::clean_session(&location, &rows, &vec![false], &vec![]).unwrap();
    assert!(orphans.is_empty());
    assert_eq!(session::session_list(&location).unwrap().len(), 0);
}

#[test]
fn get_or_create_reuses_record() {
    let location = SessionPath {
        plugin: String::from("/tmp"),
        database: String::from("/tmp/session_registry_reuse_test.sqlite"),
    };
    session::init_database(&location).unwrap();
    reset(location.database.as_str());

    let first = match session::get_or_create_session(&location, "/proj/a").unwrap() {
        session::SessionOutcome::Created(rec) => rec,
        session::SessionOutcome::Existing(_) => panic!("no record existed yet"),
    };
    assert_eq!(first.path, "/proj/a");
    assert!(first.data.starts_with("/tmp/"));
    assert!(first.data.ends_with(".vim"));
    // /tmp/ + eight token characters + .vim
    assert_eq!(first.data.len(), 5 + 8 + 4);

    let second = match session::get_or_create_session(&location, "/proj/a").unwrap() {
        session::SessionOutcome::Existing(rec) => rec,
        session::SessionOutcome::Created(_) => panic!("the record should be reused"),
    };
    assert_eq!(second.path, first.path);
    assert_eq!(second.data, first.data);
}

#[test]
fn clean_session_deletes_only_stale_rows() {
    let location = SessionPath {
        plugin: String::from("/tmp"),
        database: String::from("/tmp/session_registry_clean_test.sqlite"),
    };
    session::init_database(&location).unwrap();
    reset(location.database.as_str());

    let a = SessionData { path: String::from("/a"), data: String::from("/tmp/fa.vim") };
    let b = SessionData { path: String::from("/b"), data: String::from("/tmp/fb.vim") };
    db::save_session(location.database.as_str(), &a).unwrap();
    db::save_session(location.database.as_str(), &b).unwrap();

    let rows = session::session_list(&location).unwrap();
    assert_eq!(rows.len(), 2);
    // /a's file is gone; /b's file remains, and a third file is orphaned.
    let present: Vec<bool> = rows.iter().map(|r| r.path == "/b").collect();
    let listed = vec![String::from("/tmp/fb.vim"), String::from("/tmp/stray.vim")];
    let orphans = session::clean_session(&location, &rows, &present, &listed).unwrap();
    assert_eq!(orphans, vec![String::from("/tmp/stray.vim")]);

    let after = session::session_list(&location).unwrap();
    assert_eq!(after.len(), 1);
    assert_eq!(after[0].path, "/b");
}
