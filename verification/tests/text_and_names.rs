use typed_graph_cli::hex::hex_key;
use typed_graph_cli::naming::{increment_is_safe, increment_name, try_increment_name};
use typed_graph_cli::paths::join_path;
use typed_graph_cli::text::{
    indents, join_strings, join_wrapped, replace_dots, to_snake_case, write_decimal, write_fill,
    write_holes,
};

#[test]
fn snake_case_of_type_names() {
    assert_eq!(to_snake_case("NodeType"), "node_type");
    assert_eq!(to_snake_case("Student"), "student");
    assert_eq!(to_snake_case("already_snake"), "already_snake");
    assert_eq!(to_snake_case("V0_1"), "v0_1");
    assert_eq!(to_snake_case(""), "");
    assert_eq!(to_snake_case("ABC"), "a_b_c");
}

#[test]
fn dots_become_underscores() {
    assert_eq!(replace_dots("V0.1.0"), "V0_1_0");
    assert_eq!(replace_dots("plain"), "plain");
}

#[test]
fn increment_name_counts_up_the_trailing_number() {
    assert_eq!(increment_name("Hello789", "_copy"), "Hello790");
    assert_eq!(increment_name("V9", "_copy"), "V10");
    assert_eq!(increment_name("V0.99", "_copy"), "V0.100");
    assert_eq!(increment_name("Schema", "_copy"), "Schema_copy");
    assert_eq!(increment_name("", "_copy"), "_copy");
}

#[test]
fn checked_increment_counts_up_ascii_names() {
    assert!(increment_is_safe("Hello789"));
    assert_eq!(try_increment_name("Hello789", "_copy"), Some("Hello790".to_string()));
    assert_eq!(try_increment_name("V99", "_copy"), Some("V100".to_string()));
    assert_eq!(try_increment_name("Schema", "_copy"), Some("Schema_copy".to_string()));
}

#[test]
fn checked_increment_refuses_a_digit_with_low_byte_255() {
    // U+1D7FF is a numeric character whose low byte is 0xff.
    assert!(!increment_is_safe("V\u{1D7FF}"));
    assert_eq!(try_increment_name("V\u{1D7FF}", "_copy"), None);
    assert!(!increment_is_safe("V\u{1D7FF}9"));
    // U+1D7FE counts up on its low byte.
    assert!(increment_is_safe("V\u{1D7FE}"));
    assert_eq!(try_increment_name("V\u{1D7FE}", "_copy"), Some("V\u{ff}".to_string()));
}

#[test]
fn hex_keys_are_right_aligned_in_sixteen_columns() {
    assert_eq!(hex_key(255), "            0xff");
    assert_eq!(hex_key(0), "             0x0");
    assert_eq!(hex_key(0x1234_5678_9abc_def0), "0x123456789abcdef0");
}

#[test]
fn join_path_puts_one_separator() {
    assert_eq!(join_path("out", "schema.rs"), "out/schema.rs");
    assert_eq!(join_path("out/", "schema.rs"), "out/schema.rs");
    assert_eq!(join_path("", "schema.rs"), "schema.rs");
}

#[test]
fn joins_and_wraps() {
    let v = vec!["a".to_string(), "b".to_string(), "c".to_string()];
    assert_eq!(join_strings(&v, ", "), "a, b, c");
    assert_eq!(join_wrapped(&v, "alias=\"", "\"", ", "), "alias=\"a\", alias=\"b\", alias=\"c\"");
    assert_eq!(join_strings(&Vec::new(), ", "), "");
    assert_eq!(indents(2), "        ");
    assert_eq!(indents(0), "");
}

#[test]
fn templates_and_numbers() {
    let mut s = String::new();
    write_fill(&mut s, &["mod ", ";\npub use ", "::*;\n"], "node");
    assert_eq!(s, "mod node;\npub use node::*;\n");
    let mut t = String::new();
    write_holes(&mut t, &["(", ", ", ")"], &["a", "b"]);
    assert_eq!(t, "(a, b)");
    let mut d = String::new();
    write_decimal(&mut d, 1234);
    assert_eq!(d, "1234");
    let mut z = String::new();
    write_decimal(&mut z, 0);
    assert_eq!(z, "0");
}

#[test]
fn joining_an_absolute_name_gives_the_name() {
    assert_eq!(join_path("a", "/x"), "/x");
    assert_eq!(join_path("a/", "/x/y"), "/x/y");
    assert_eq!(join_path("", "/x"), "/x");
    assert_eq!(join_path("a", "x"), "a/x");
    assert_eq!(join_path("a/", "x"), "a/x");
}

