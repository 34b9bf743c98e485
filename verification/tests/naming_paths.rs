use session_registry::namer::generate_random_string;
use session_registry::paths::{session_file_path, SessionPath};

#[test]
fn resolve_layout_from_base_dir() {
    let location = SessionPath::new("/tmp/nvim");
    assert_eq!(location.plugin, "/tmp/nvim/plugins/session");
    assert_eq!(location.database, "/tmp/nvim/plugins/session/sqlite.db");
}

#[test]
fn resolve_is_deterministic() {
    let first = SessionPath::new("/data");
    let second = SessionPath::new("/data");
    assert_eq!(first.plugin, second.plugin);
    assert_eq!(first.database, second.database);
}

#[test]
fn session_file_path_composition() {
    let path = session_file_path("/tmp/nvim/plugins/session", "abcd1234");
    assert_eq!(path, "/tmp/nvim/plugins/session/abcd1234.vim");
}

#[test]
fn token_has_length_and_charset() {
    let token = generate_random_string(8);
    assert_eq!(token.chars().count(), 8);
    for c in token.chars() {
        assert!(c.is_ascii_lowercase() || c.is_ascii_digit());
    }
}

#[test]
fn token_of_length_zero_is_empty() {
    assert_eq!(generate_random_string(0), "");
}

#[test]
fn tokens_are_collision_resistant() {
    // Not guaranteed distinct, but a collision of two 36^16 draws would
    // point at a broken random source.
    let a = generate_random_string(16);
    let b = generate_random_string(16);
    assert_ne!(a, b);
}
