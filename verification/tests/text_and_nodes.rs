use session_registry::listing;
use session_registry::position::{normalize_selection, Position};
use session_registry::strutil::{contains_str, str_ends_with, str_eq, str_lt};
use session_registry::tree;

#[test]
fn string_equality_is_by_characters() {
    assert!(str_eq("abc", "abc"));
    assert!(!str_eq("abc", "abd"));
    assert!(!str_eq("abc", "abcd"));
    assert!(str_eq("", ""));
}

#[test]
fn suffix_test_matches_vim_extension() {
    assert!(str_ends_with("/tmp/a.vim", ".vim"));
    assert!(!str_ends_with("/tmp/a.txt", ".vim"));
    assert!(!str_ends_with("im", ".vim"));
}

#[test]
fn lexicographic_order() {
    assert!(str_lt("abc", "abd"));
    assert!(str_lt("ab", "abc"));
    assert!(!str_lt("abc", "abc"));
    assert!(!str_lt("b", "abc"));
}

#[test]
fn contains_str_finds_needle() {
    let items = vec![String::from("x"), String::from("y")];
    assert!(contains_str(&items, "y"));
    assert!(!contains_str(&items, "z"));
}

#[test]
fn selection_already_ordered() {
    let start = Position { buffer: 0, row: 1, col: 2, offset: 0 };
    let end = Position { buffer: 0, row: 3, col: 1, offset: 0 };
    let sel = normalize_selection(&start, &end);
    assert_eq!((sel.start_row, sel.start_col, sel.end_row, sel.end_col), (1, 2, 3, 1));
}

#[test]
fn selection_swaps_reversed_marks() {
    let start = Position { buffer: 0, row: 5, col: 4, offset: 0 };
    let end = Position { buffer: 0, row: 2, col: 9, offset: 0 };
    let sel = normalize_selection(&start, &end);
    assert_eq!((sel.start_row, sel.start_col, sel.end_row, sel.end_col), (2, 9, 5, 4));
}

#[test]
fn selection_same_row_orders_by_column() {
    let start = Position { buffer: 0, row: 2, col: 9, offset: 0 };
    let end = Position { buffer: 0, row: 2, col: 3, offset: 0 };
    let sel = normalize_selection(&start, &end);
    assert_eq!((sel.start_row, sel.start_col, sel.end_row, sel.end_col), (2, 3, 2, 9));
}

#[test]
fn tree_nodes_from_metadata_flags() {
    let file = tree::FileNode::try_new(String::from("a.txt"), true, false, false).unwrap();
    assert!(file.is_file());
    assert!(!file.is_dir());
    assert_eq!(file.name(), "a.txt");

    let link = tree::FileNode::try_new(String::from("l"), true, false, true).unwrap();
    assert!(link.is_file());

    let dir = tree::FileNode::try_new(String::from("src"), false, true, false).unwrap();
    assert!(dir.is_dir());
    assert_eq!(dir.name(), "src");

    assert!(tree::FileNode::try_new(String::from("sock"), false, false, false).is_none());
}

#[test]
fn tree_arena_records_children() {
    let root = tree::FileNode::try_new(String::from("/"), false, true, false).unwrap();
    let mut t = tree::FileTree::new(root);
    let file = tree::FileNode::try_new(String::from("a.txt"), true, false, false).unwrap();
    let sub = tree::FileNode::try_new(String::from("sub"), false, true, false).unwrap();
    let file_idx = t.add_node(0, file);
    let sub_idx = t.add_node(0, sub);
    let inner = tree::FileNode::try_new(String::from("b.txt"), true, false, false).unwrap();
    let inner_idx = t.add_node(sub_idx, inner);

    assert_eq!(t.len(), 4);
    assert_eq!(t.node(0).name(), "/");
    assert_eq!(t.node(file_idx).name(), "a.txt");
    assert_eq!(t.node(sub_idx).name(), "sub");
    assert_eq!(t.node(inner_idx).name(), "b.txt");
    match t.node(0) {
        tree::FileNode::Dir(d) => assert_eq!(d.children, vec![file_idx, sub_idx]),
        _ => panic!("the root is a directory"),
    }
    match t.node(sub_idx) {
        tree::FileNode::Dir(d) => assert_eq!(d.children, vec![inner_idx]),
        _ => panic!("sub is a directory"),
    }
}

#[test]
fn listing_kind_from_flags() {
    assert_eq!(listing::FileType::from_flags(true, false, false), listing::FileType::File);
    assert_eq!(listing::FileType::from_flags(true, false, true), listing::FileType::LinkFile);
    assert_eq!(listing::FileType::from_flags(false, true, false), listing::FileType::Dir);
    assert_eq!(listing::FileType::from_flags(false, true, true), listing::FileType::LinkDir);
    assert_eq!(listing::FileType::from_flags(false, false, false), listing::FileType::Unknown);
    assert!(listing::FileType::from_flags(false, true, true).is_dir());
    assert!(!listing::FileType::from_flags(true, false, false).is_dir());
}

#[test]
fn listing_node_children() {
    let mut dir = listing::FileNode::new(
        String::from("src"),
        String::from("/proj/src"),
        listing::FileType::Dir,
    );
    assert!(dir.is_dir());
    let file = listing::FileNode::new(
        String::from("main.rs"),
        String::from("/proj/src/main.rs"),
        listing::FileType::File,
    );
    assert!(file.children.is_none());
    dir.add_child(file);
    let children = dir.children.as_ref().unwrap();
    assert_eq!(children.len(), 1);
    assert_eq!(children[0].name, "main.rs");
}

#[test]
fn listing_order_dirs_first_then_path() {
    // A directory precedes a file whatever the paths say.
    assert!(listing::entry_precedes(true, "/z", false, "/a"));
    assert!(!listing::entry_precedes(false, "/a", true, "/z"));
    // Same kind: path order decides.
    assert!(listing::entry_precedes(true, "/a", true, "/b"));
    assert!(!listing::entry_precedes(true, "/b", true, "/a"));
    assert!(listing::entry_precedes(false, "/a", false, "/a"));
}

#[test]
fn listing_sort_orders_entries() {
    let nodes = vec![
        listing::FileNode::new(String::from("b"), String::from("/p/b"), listing::FileType::File),
        listing::FileNode::new(String::from("d"), String::from("/p/d"), listing::FileType::Dir),
        listing::FileNode::new(String::from("a"), String::from("/p/a"), listing::FileType::File),
        listing::FileNode::new(String::from("c"), String::from("/p/c"), listing::FileType::Dir),
    ];
    let sorted = listing::sort_entries(nodes);
    let shown: Vec<&str> = sorted.iter().map(|n| n.path.as_str()).collect();
    assert_eq!(shown, vec!["/p/c", "/p/d", "/p/a", "/p/b"]);
}
