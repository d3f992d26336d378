use typed_graph_cli::generated_code::{plan_write, GeneratedCode, WriteAction};

fn s(x: &str) -> String {
    x.to_string()
}

#[test]
fn added_content_is_concatenated() {
    let mut g = GeneratedCode::new();
    g.add_content(s("a.rs"), s("one"));
    g.add_content(s("a.rs"), s(" two"));
    assert_eq!(g.get(&s("a.rs")), Some(Some(s("one two"))));
    assert_eq!(g.len(), 1);
    assert_eq!(g.get(&s("b.rs")), None);
}

#[test]
fn created_files_keep_their_content() {
    let mut g = GeneratedCode::new();
    g.create_file(s("imports.rs"));
    assert_eq!(g.get(&s("imports.rs")), Some(None));
    g.add_content(s("mod.rs"), s("mod x;"));
    g.create_file(s("mod.rs"));
    assert_eq!(g.get(&s("mod.rs")), Some(Some(s("mod x;"))));
    g.add_content(s("imports.rs"), s("use y;"));
    assert_eq!(g.get(&s("imports.rs")), Some(Some(s("use y;"))));
}

#[test]
fn defaults_only_for_missing_files() {
    let mut g = GeneratedCode::new();
    g.create_file_with_default(s("a.py"), s("x = 1"), true);
    assert_eq!(g.len(), 0);
    g.create_file_with_default(s("a.py"), s("x = 1"), false);
    assert_eq!(g.get(&s("a.py")), Some(Some(s("x = 1"))));
}

#[test]
fn append_merges_in_order() {
    let mut a = GeneratedCode::new();
    a.add_content(s("x"), s("1"));
    a.create_file(s("y"));
    let mut b = GeneratedCode::new();
    b.add_content(s("x"), s("2"));
    b.add_content(s("y"), s("3"));
    b.create_file(s("z"));
    a.append(b);
    assert_eq!(a.get(&s("x")), Some(Some(s("12"))));
    assert_eq!(a.get(&s("y")), Some(Some(s("3"))));
    assert_eq!(a.get(&s("z")), Some(None));
    assert_eq!(a.len(), 3);
    assert_eq!(a.entries().len(), 3);
}

#[test]
fn writing_plans() {
    assert_eq!(plan_write(&Some(s("a")), &Some(s("a"))), WriteAction::Keep);
    assert_eq!(plan_write(&Some(s("a")), &Some(s("b"))), WriteAction::Write);
    assert_eq!(plan_write(&Some(s("a")), &None), WriteAction::Write);
    assert_eq!(plan_write(&None, &Some(s("b"))), WriteAction::Keep);
    assert_eq!(plan_write(&None, &None), WriteAction::CreateEmpty);
}

#[test]
fn writing_twice_changes_nothing() {
    let cases: Vec<(Option<String>, Option<String>)> = vec![
        (Some(s("new")), None),
        (Some(s("new")), Some(s("old"))),
        (Some(s("same")), Some(s("same"))),
        (None, None),
        (None, Some(s("kept"))),
    ];
    for (content, current) in cases {
        let after = match plan_write(&content, &current) {
            WriteAction::Keep => current.clone(),
            WriteAction::CreateEmpty => Some(String::new()),
            WriteAction::Write => content.clone(),
        };
        // The file exists afterwards, and a second plan keeps it.
        assert!(after.is_some());
        assert_eq!(plan_write(&content, &after), WriteAction::Keep);
    }
    assert_eq!(plan_write(&None, &Some(s("imports"))), WriteAction::Keep);
}

#[test]
fn content_accumulates_and_merging_nothing_changes_nothing() {
    let mut a = GeneratedCode::new();
    a.add_content(s("f"), s("ab"));
    let mut b = GeneratedCode::new();
    b.add_content(s("f"), s("a"));
    b.add_content(s("f"), s("b"));
    assert_eq!(a.get(&s("f")), b.get(&s("f")));
    b.create_file(s("f"));
    b.create_file(s("f"));
    assert_eq!(b.get(&s("f")), Some(Some(s("ab"))));
    b.append(GeneratedCode::new());
    assert_eq!(b.get(&s("f")), Some(Some(s("ab"))));
    assert_eq!(b.len(), 1);
}
