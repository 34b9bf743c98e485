use session_registry::errors::StorageError;
use session_registry::reconcile::{orphan_files, partition_stale};
use session_registry::record::SessionData;
use session_registry::store::RecordTable;

fn rec(path: &str, data: &str) -> SessionData {
    SessionData { path: String::from(path), data: String::from(data) }
}

#[test]
fn get_or_create_is_idempotent() {
    // Two calls for the same workspace return the same session-file path,
    // and exactly one record exists afterwards.
    let mut t = RecordTable::new();
    let first = t.get_or_create("/proj/a", String::from("/tmp/f1.vim")).unwrap();
    assert_eq!(first, "/tmp/f1.vim");
    let second = t.get_or_create("/proj/a", String::from("/tmp/f2.vim")).unwrap();
    assert_eq!(second, "/tmp/f1.vim");
    let rows = t.list_all();
    assert_eq!(rows.len(), 1);
    assert_eq!(rows[0].path, "/proj/a");
    assert_eq!(rows[0].data, "/tmp/f1.vim");
}

#[test]
fn get_or_create_unique_keys() {
    // Four calls over three distinct workspaces leave three records,
    // each with a distinct workspace path and a distinct file path.
    let mut t = RecordTable::new();
    t.get_or_create("/proj/a", String::from("/tmp/f1.vim")).unwrap();
    t.get_or_create("/proj/b", String::from("/tmp/f2.vim")).unwrap();
    t.get_or_create("/proj/a", String::from("/tmp/f3.vim")).unwrap();
    t.get_or_create("/proj/c", String::from("/tmp/f4.vim")).unwrap();
    let rows = t.list_all();
    assert_eq!(rows.len(), 3);
    for i in 0..rows.len() {
        for j in 0..rows.len() {
            if i != j {
                assert_ne!(rows[i].path, rows[j].path);
                assert_ne!(rows[i].data, rows[j].data);
            }
        }
    }
}

#[test]
fn insert_rejects_duplicates() {
    let mut t = RecordTable::new();
    assert!(t.insert(rec("/proj/a", "/tmp/f1.vim")).is_ok());
    // Duplicate workspace path.
    assert_eq!(t.insert(rec("/proj/a", "/tmp/f2.vim")), Err(StorageError::ConstraintViolation));
    // Duplicate session-file path.
    assert_eq!(t.insert(rec("/proj/b", "/tmp/f1.vim")), Err(StorageError::ConstraintViolation));
    assert_eq!(t.list_all().len(), 1);
}

#[test]
fn find_by_workspace_miss_is_none() {
    let t = RecordTable::new();
    assert!(t.find_by_workspace("/proj/a").is_none());
}

#[test]
fn find_by_workspace_hit() {
    let mut t = RecordTable::new();
    t.insert(rec("/proj/a", "/tmp/f1.vim")).unwrap();
    let found = t.find_by_workspace("/proj/a").unwrap();
    assert_eq!(found.path, "/proj/a");
    assert_eq!(found.data, "/tmp/f1.vim");
}

#[test]
fn delete_where_workspace_in_removes_listed_keys() {
    let mut t = RecordTable::new();
    t.insert(rec("/proj/a", "/tmp/f1.vim")).unwrap();
    t.insert(rec("/proj/b", "/tmp/f2.vim")).unwrap();
    t.insert(rec("/proj/c", "/tmp/f3.vim")).unwrap();
    t.delete_where_workspace_in(&vec![String::from("/proj/a"), String::from("/proj/c")]);
    let rows = t.list_all();
    assert_eq!(rows.len(), 1);
    assert_eq!(rows[0].path, "/proj/b");
}

#[test]
fn delete_where_workspace_in_empty_is_noop() {
    let mut t = RecordTable::new();
    t.insert(rec("/proj/a", "/tmp/f1.vim")).unwrap();
    t.delete_where_workspace_in(&vec![]);
    assert_eq!(t.list_all().len(), 1);
}

#[test]
fn reconciliation_sweeps_orphaned_records() {
    // A record whose file is gone is marked stale; the live side keeps
    // the rest.
    let records = vec![rec("/a", "/tmp/f.vim"), rec("/b", "/tmp/g.vim")];
    let present = vec![false, true];
    let (stale, live) = partition_stale(&records, &present);
    assert_eq!(stale, vec![String::from("/a")]);
    assert_eq!(live.len(), 1);
    assert_eq!(live[0].path, "/b");
    assert_eq!(live[0].data, "/tmp/g.vim");
}

#[test]
fn reconciliation_sweeps_orphaned_files() {
    // A listed file with no record is deleted; files referenced by live
    // records are left untouched.
    let live = vec![rec("/b", "/tmp/g.vim")];
    let listed = vec![String::from("/tmp/g.vim"), String::from("/tmp/h.vim")];
    let orphans = orphan_files(&listed, &live);
    assert_eq!(orphans, vec![String::from("/tmp/h.vim")]);
}

#[test]
fn reconciliation_noop_on_consistent_state() {
    // Every record's file exists and every file has a record: nothing
    // is stale and nothing is orphaned.
    let records = vec![rec("/a", "/tmp/f.vim"), rec("/b", "/tmp/g.vim")];
    let present = vec![true, true];
    let (stale, live) = partition_stale(&records, &present);
    assert!(stale.is_empty());
    assert_eq!(live.len(), 2);
    let listed = vec![String::from("/tmp/f.vim"), String::from("/tmp/g.vim")];
    let orphans = orphan_files(&listed, &live);
    assert!(orphans.is_empty());
}
