use session_registry::comment::{
    comment_line, comment_line_toggle, comment_multiline_toggle, comment_string, uncomment_line,
};

#[test]
fn comment_line_toggle_works() {}

#[test]
fn toggle_comments_an_uncommented_line() {
    let out = comment_line_toggle("//", String::from("    let x = 1;"));
    assert_eq!(out, "    // let x = 1;");
}

#[test]
fn toggle_uncomments_a_commented_line() {
    let out = comment_line_toggle("//", String::from("    // let x = 1;"));
    assert_eq!(out, "    let x = 1;");
}

#[test]
fn toggle_uncomments_marker_without_space() {
    let out = comment_line_toggle("//", String::from("//let x = 1;"));
    assert_eq!(out, "let x = 1;");
}

#[test]
fn toggle_roundtrip_restores_line() {
    let line = "  value = 3";
    let once = comment_line_toggle("--", String::from(line));
    assert_eq!(once, "  -- value = 3");
    let twice = comment_line_toggle("--", once);
    assert_eq!(twice, line);
}

#[test]
fn comment_line_inserts_at_index() {
    let out = comment_line("#", String::from("  echo hi"), 2);
    assert_eq!(out, "  # echo hi");
}

#[test]
fn uncomment_leaves_plain_line_alone() {
    let out = uncomment_line("//", String::from("let x = 1;"));
    assert_eq!(out, "let x = 1;");
}

#[test]
fn uncomment_behind_tab_indent() {
    let out = uncomment_line("//", String::from("\t// let x = 1;"));
    assert_eq!(out, "\tlet x = 1;");
}

#[test]
fn multiline_comments_at_shallowest_indent() {
    let lines = vec![
        String::from("fn main() {"),
        String::from(""),
        String::from("    body();"),
        String::from("}"),
    ];
    let out = comment_multiline_toggle("//", &lines);
    assert_eq!(
        out,
        vec![
            String::from("// fn main() {"),
            String::from(""),
            String::from("//     body();"),
            String::from("// }"),
        ]
    );
}

#[test]
fn multiline_uncomments_fully_commented_block() {
    let lines = vec![String::from("  // one"), String::from("  // two")];
    let out = comment_multiline_toggle("//", &lines);
    assert_eq!(out, vec![String::from("  one"), String::from("  two")]);
}

#[test]
fn multiline_mixed_block_gets_commented() {
    // One uncommented, non-empty line makes the whole block comment.
    let lines = vec![String::from("  // one"), String::from("  two")];
    let out = comment_multiline_toggle("//", &lines);
    assert_eq!(out, vec![String::from("  // // one"), String::from("  // two")]);
}

#[test]
fn comment_string_known_filetypes() {
    assert_eq!(comment_string(String::from("c")), Some(String::from("//")));
    assert_eq!(comment_string(String::from("cpp")), Some(String::from("//")));
    assert_eq!(comment_string(String::from("rust")), Some(String::from("//")));
    assert_eq!(comment_string(String::from("sh")), Some(String::from("#")));
    assert_eq!(comment_string(String::from("lua")), Some(String::from("--")));
    assert_eq!(comment_string(String::from("sql")), Some(String::from("--")));
}

#[test]
fn comment_string_unknown_filetype() {
    assert_eq!(comment_string(String::from("markdown")), None);
}
