use session_registry::record::SessionData;

#[test]
fn it_works() {}

#[test]
fn lib_it_works() {}

#[test]
fn record_fields_roundtrip() {
    let rec = SessionData { path: String::from("/proj/a"), data: String::from("/tmp/x.vim") };
    let copy = rec.clone();
    assert_eq!(copy.path, "/proj/a");
    assert_eq!(copy.data, "/tmp/x.vim");
}
