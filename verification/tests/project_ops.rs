use typed_graph_cli::direction::Direction;
use typed_graph_cli::error::GenError;
use typed_graph_cli::project::Project;
use typed_graph_cli::schema::{ChangeSet, Schema};

fn s(x: &str) -> String {
    x.to_string()
}

fn schema(v: &str, hash: u64) -> Schema {
    Schema { version: s(v), content: Vec::new(), hash }
}

fn changeset(old: &str, new: &str, old_hash: u64, new_hash: u64, id: u64) -> ChangeSet {
    ChangeSet {
        old_version: s(old),
        new_version: s(new),
        old_hash,
        new_hash,
        id,
        handler: None,
        changes: Vec::new(),
    }
}

fn project() -> Project {
    Project::new(s("prj/schemas"), s("prj/changesets"))
}

fn sorted(mut v: Vec<String>) -> Vec<String> {
    v.sort();
    v
}

#[test]
fn schemas_are_stored_by_name() {
    let mut p = project();
    assert_eq!(p.add_schema(schema("V0.0", 10)), Ok(s("V0.0")));
    assert!(p.has_schema("V0.0"));
    assert!(!p.has_schema("V0.1"));
    assert_eq!(p.get_schema(&s("V0.0")).unwrap().hash, 10);
    assert_eq!(p.get_schema(&s("V9")).err(), Some(GenError::UnknownSchema { name: s("V9") }));
    assert!(p.get_schema_safe(&s("V9")).is_none());
    assert_eq!(p.iter_schema(), vec![s("V0.0")]);
    assert_eq!(p.get_schema_folder(), "prj/schemas");
    assert_eq!(p.get_changeset_folder(), "prj/changesets");
}

#[test]
fn a_second_schema_of_the_same_name_is_reported() {
    let mut p = project();
    p.add_schema(schema("V0.0", 10)).unwrap();
    assert_eq!(
        p.add_schema(schema("V0.0", 11)),
        Err(GenError::DuplicateKeys {
            kind: s("schema"),
            old: s("V0.0"),
            new: s("V0.0"),
            old_hash: 10,
            new_hash: 11,
        })
    );
    assert_eq!(p.get_schema(&s("V0.0")).unwrap().hash, 11);
}

#[test]
fn changesets_enter_the_version_tree_both_ways() {
    let mut p = project();
    p.add_schema(schema("V1", 1)).unwrap();
    p.add_schema(schema("V2", 2)).unwrap();
    assert_eq!(p.add_changeset(changeset("V1", "V2", 1, 2, 77)), Ok(77));
    assert_eq!(p.iter_version(Some(Direction::Forward)), vec![(s("V1"), s("V2"), 77)]);
    assert_eq!(p.iter_version(Some(Direction::Backwards)), vec![(s("V2"), s("V1"), 77)]);
    assert_eq!(
        p.iter_version(None),
        vec![(s("V1"), s("V2"), 77), (s("V2"), s("V1"), 77)]
    );
    assert_eq!(p.iter_changesets(), vec![77]);
    assert_eq!(p.find_heads(), vec![s("V2")]);
    assert_eq!(p.find_roots(), vec![s("V1")]);
    assert_eq!(p.get_parents("V2"), vec![s("V1")]);
    assert!(p.get_parents("V1").is_empty());
    assert_eq!(p.verify_integrity(), Ok(()));
}

#[test]
fn removing_a_changeset_takes_it_out_of_the_tree() {
    let mut p = project();
    p.add_schema(schema("V1", 1)).unwrap();
    p.add_schema(schema("V2", 2)).unwrap();
    p.add_changeset(changeset("V1", "V2", 1, 2, 77)).unwrap();
    let c = p.remove_changeset(77).unwrap();
    assert_eq!(c.id, 77);
    assert!(p.iter_version(Some(Direction::Forward)).is_empty());
    assert!(p.iter_changesets().is_empty());
    assert_eq!(sorted(p.find_heads()), vec![s("V1"), s("V2")]);
    assert_eq!(p.remove_changeset(77).err(), Some(GenError::UnknownChangeset { name: 77 }));
    assert_eq!(p.get_changeset(&77).err(), Some(GenError::UnknownChangeset { name: 77 }));
}

#[test]
fn a_second_changeset_with_the_same_id_is_reported() {
    let mut p = project();
    p.add_changeset(changeset("V1", "V2", 1, 2, 5)).unwrap();
    assert_eq!(
        p.add_changeset(changeset("V2", "V3", 2, 3, 5)),
        Err(GenError::DuplicateKeys {
            kind: s("changset"),
            old: s("V1"),
            new: s("V2"),
            old_hash: 1,
            new_hash: 2,
        })
    );
}

#[test]
fn the_version_tree_check_names_what_is_missing() {
    let mut p = project();
    p.add_changeset(changeset("V1", "V2", 1, 2, 5)).unwrap();
    assert_eq!(
        p.check_version_tree(),
        Err(GenError::MalformedVersionTree { kind: s("new schema"), missing_key: s("V2") })
    );
    p.add_schema(schema("V2", 2)).unwrap();
    assert_eq!(
        p.check_version_tree(),
        Err(GenError::MalformedVersionTree { kind: s("old schema"), missing_key: s("V1") })
    );
    p.add_schema(schema("V1", 1)).unwrap();
    assert_eq!(p.check_version_tree(), Ok(()));
    // A changeset that shares the id of another replaces it, then goes away with its entries.
    let _ = p.add_changeset(changeset("V2", "V1", 2, 1, 5));
    p.remove_changeset(5).unwrap();
    p.add_changeset(changeset("V1", "V2", 1, 2, 6)).unwrap();
    p.remove_changeset(6).unwrap();
    assert!(p.check_version_tree().is_ok());
    let _ = p.add_changeset(changeset("V1", "V2", 1, 2, 7));
    let _ = p.add_changeset(changeset("V2", "V1", 2, 1, 7));
    p.remove_changeset(7).unwrap();
    assert_eq!(p.check_version_tree(), Ok(()));
}

#[test]
fn the_version_tree_check_reports_a_missing_changeset() {
    let mut p = project();
    p.add_schema(schema("V1", 1)).unwrap();
    p.add_schema(schema("V2", 2)).unwrap();
    p.add_schema(schema("V3", 3)).unwrap();
    p.add_changeset(changeset("V1", "V2", 1, 2, 255)).unwrap();
    let _ = p.add_changeset(changeset("V2", "V3", 2, 3, 255));
    p.remove_changeset(255).unwrap();
    assert_eq!(
        p.check_version_tree(),
        Err(GenError::MalformedVersionTree { kind: s("changset"), missing_key: s("            0xff") })
    );
}

#[test]
fn changesets_must_match_their_schemas() {
    let mut p = project();
    p.add_schema(schema("V1", 1)).unwrap();
    p.add_schema(schema("V2", 2)).unwrap();
    let good = changeset("V1", "V2", 1, 2, 5);
    assert_eq!(p.test_changeset(&good), Ok(()));
    let stale = changeset("V1", "V2", 1, 3, 6);
    assert_eq!(
        p.test_changeset(&stale),
        Err(GenError::DivergentChangeset {
            old_version: s("V1"),
            new_version: s("V2"),
            schema: s("V2"),
            expected: 3,
            recieved: 2,
        })
    );
    let unknown = changeset("V0", "V2", 1, 2, 7);
    assert_eq!(p.test_changeset(&unknown), Err(GenError::UnknownSchema { name: s("V0") }));
    p.add_changeset(stale).unwrap();
    assert!(p.check_changset_hashes().is_err());
    assert!(p.verify_integrity().is_err());
}

#[test]
fn opening_checks_duplicates_and_integrity() {
    let ok = Project::open(
        s("a"),
        s("b"),
        vec![schema("V1", 1), schema("V2", 2)],
        vec![changeset("V1", "V2", 1, 2, 9)],
        true,
    );
    assert!(ok.is_ok());
    assert_eq!(ok.unwrap().find_heads(), vec![s("V2")]);
    let dup = Project::open(s("a"), s("b"), vec![schema("V1", 1), schema("V1", 4)], vec![], true);
    assert_eq!(
        dup.err(),
        Some(GenError::DuplicateKeys { kind: s("schema"), old: s("V1"), new: s("V1"), old_hash: 1, new_hash: 4 })
    );
    let bad = Project::open(s("a"), s("b"), vec![schema("V1", 1)], vec![changeset("V1", "V2", 1, 2, 9)], true);
    assert_eq!(
        bad.err(),
        Some(GenError::MalformedVersionTree { kind: s("new schema"), missing_key: s("V2") })
    );
    let raw = Project::open(s("a"), s("b"), vec![schema("V1", 1)], vec![changeset("V1", "V2", 1, 2, 9)], false);
    assert!(raw.is_ok());
}

#[test]
fn copies_get_a_free_name() {
    let mut p = project();
    p.add_schema(schema("V1", 1)).unwrap();
    assert_eq!(p.copy_name(&s("V1"), false), Ok(s("V1_copy")));
    assert_eq!(p.copy_name(&s("V1"), true), Ok(s("V2")));
    p.add_schema(schema("V1_copy", 1)).unwrap();
    p.add_schema(schema("V2", 1)).unwrap();
    assert_eq!(p.copy_name(&s("V1"), false), Ok(s("V1_copy_copy")));
    assert_eq!(p.copy_name(&s("V1"), true), Ok(s("V2_copy")));
    assert_eq!(p.copy_name(&s("V7"), true), Err(GenError::UnknownSchema { name: s("V7") }));
}

#[test]
fn renaming_moves_the_changesets_along() {
    let mut p = project();
    p.add_schema(schema("V1", 1)).unwrap();
    p.add_schema(schema("V2", 2)).unwrap();
    p.add_changeset(changeset("V1", "V2", 1, 2, 5)).unwrap();
    let files = p.rename_schema(&s("V1"), s("V0"), 9).unwrap();
    assert!(!p.has_schema("V1"));
    assert_eq!(p.get_schema(&s("V0")).unwrap().hash, 9);
    let c = p.get_changeset(&5).unwrap();
    assert_eq!((c.old_version.as_str(), c.new_version.as_str(), c.old_hash, c.new_hash), ("V0", "V2", 9, 2));
    assert_eq!(p.iter_version(Some(Direction::Forward)), vec![(s("V0"), s("V2"), 5)]);
    assert_eq!(p.get_parents("V2"), vec![s("V0")]);
    assert_eq!(files.removed_changesets, vec![s("prj/changesets/V1 V2.bs.diff")]);
    assert_eq!(files.saved_changesets, vec![5]);
    assert_eq!(files.removed_schema, s("prj/schemas/V1.bs"));
    assert_eq!(files.saved_schema, s("V0"));
    assert_eq!(p.verify_integrity(), Ok(()));
}

#[test]
fn renaming_needs_a_known_schema_and_a_free_name() {
    let mut p = project();
    p.add_schema(schema("V1", 1)).unwrap();
    p.add_schema(schema("V2", 2)).unwrap();
    assert_eq!(p.rename_schema(&s("V3"), s("V4"), 0).err(), Some(GenError::UnknownSchema { name: s("V3") }));
    assert_eq!(
        p.rename_schema(&s("V1"), s("V2"), 0).err(),
        Some(GenError::DuplicateKeys { kind: s("schema"), old: s("V1"), new: s("V2"), old_hash: 1, new_hash: 2 })
    );
}

#[test]
fn creating_and_updating_changesets() {
    let mut p = project();
    p.add_schema(schema("V1", 1)).unwrap();
    p.add_schema(schema("V2", 2)).unwrap();
    assert_eq!(
        p.create_changeset(&s("V0"), &s("V2"), changeset("V0", "V2", 0, 2, 3)),
        Err(GenError::UnknownSchema { name: s("V0") })
    );
    assert_eq!(p.create_changeset(&s("V1"), &s("V2"), changeset("V1", "V2", 1, 2, 3)), Ok(3));
    assert_eq!(
        p.create_changeset(&s("V1"), &s("V2"), changeset("V1", "V2", 1, 2, 4)),
        Err(GenError::DuplicateKeys { kind: s("changeset"), old: s("V1"), new: s("V2"), old_hash: 1, new_hash: 2 })
    );
    assert_eq!(p.needs_update(&3), Ok(false));
    assert_eq!(p.update_changeset(&3, changeset("V1", "V2", 1, 2, 8)), Ok(None));
    p.add_schema(schema("V2", 20)).unwrap_err();
    assert_eq!(p.needs_update(&3), Ok(true));
    assert_eq!(p.update_changeset(&3, changeset("V1", "V2", 1, 20, 8)), Ok(Some(8)));
    assert!(p.get_changeset(&3).is_err());
    assert_eq!(p.get_changeset(&8).unwrap().new_hash, 20);
    assert_eq!(p.verify_integrity(), Ok(()));
}

#[test]
fn files_of_schemas_and_changesets() {
    let mut p = project();
    p.add_schema(schema("V1", 1)).unwrap();
    p.add_schema(schema("V2", 2)).unwrap();
    p.add_changeset(changeset("V1", "V2", 1, 2, 3)).unwrap();
    assert_eq!(p.save_schema(&s("V1")), Ok(s("prj/schemas/V1.bs")));
    assert_eq!(p.save_changeset(&3), Ok(s("prj/changesets/V1 V2.bs.diff")));
    assert_eq!(p.save_changeset(&4), Err(GenError::UnknownChangeset { name: 4 }));
}

#[test]
fn a_schema_added_is_read_back() {
    let mut p = project();
    p.add_schema(schema("V1", 1)).unwrap();
    p.add_schema(schema("V2", 2)).unwrap();
    p.add_schema(schema("V2", 3)).unwrap_err();
    assert_eq!(p.get_schema(&s("V2")).unwrap().hash, 3);
    assert_eq!(p.get_schema(&s("V1")).unwrap().hash, 1);
}

#[test]
fn adding_and_removing_a_changeset_restores_the_project() {
    let mut p = project();
    p.add_schema(schema("V1", 1)).unwrap();
    p.add_schema(schema("V2", 2)).unwrap();
    p.add_schema(schema("V3", 3)).unwrap();
    p.add_changeset(changeset("V1", "V2", 1, 2, 12)).unwrap();
    let forward = p.iter_version(Some(Direction::Forward));
    let backwards = p.iter_version(Some(Direction::Backwards));
    let heads = sorted(p.find_heads());
    p.add_changeset(changeset("V2", "V3", 2, 3, 23)).unwrap();
    assert_eq!(sorted(p.find_heads()), vec![s("V3")]);
    p.remove_changeset(23).unwrap();
    assert_eq!(p.iter_version(Some(Direction::Forward)), forward);
    assert_eq!(p.iter_version(Some(Direction::Backwards)), backwards);
    assert_eq!(sorted(p.find_heads()), heads);
    assert_eq!(p.iter_changesets(), vec![12]);
}

#[test]
fn a_linked_schema_is_no_head_and_its_child_no_root() {
    let mut p = project();
    p.add_schema(schema("V1", 1)).unwrap();
    p.add_schema(schema("V2", 2)).unwrap();
    assert_eq!(sorted(p.find_heads()), vec![s("V1"), s("V2")]);
    assert_eq!(sorted(p.find_roots()), vec![s("V1"), s("V2")]);
    p.add_changeset(changeset("V1", "V2", 1, 2, 12)).unwrap();
    assert_eq!(p.find_heads(), vec![s("V2")]);
    assert_eq!(p.find_roots(), vec![s("V1")]);
    // A changeset from a schema to itself leaves it a head.
    let mut q = project();
    q.add_schema(schema("V1", 1)).unwrap();
    q.add_changeset(changeset("V1", "V1", 1, 1, 11)).unwrap();
    assert_eq!(q.find_heads(), vec![s("V1")]);
}

#[test]
fn changing_a_linked_schema_breaks_the_project() {
    let mut p = project();
    p.add_schema(schema("V1", 1)).unwrap();
    p.add_schema(schema("V2", 2)).unwrap();
    p.add_changeset(changeset("V1", "V2", 1, 2, 12)).unwrap();
    assert_eq!(p.verify_integrity(), Ok(()));
    p.add_schema(schema("V2", 20)).unwrap_err();
    assert_eq!(
        p.verify_integrity(),
        Err(GenError::DivergentChangeset {
            old_version: s("V1"),
            new_version: s("V2"),
            schema: s("V2"),
            expected: 2,
            recieved: 20,
        })
    );
    assert_eq!(p.needs_update(&12), Ok(true));
}

#[test]
fn renaming_is_safe_when_the_tree_names_known_changesets() {
    let mut p = project();
    p.add_schema(schema("V1", 1)).unwrap();
    p.add_schema(schema("V2", 2)).unwrap();
    p.add_changeset(changeset("V1", "V2", 1, 2, 12)).unwrap();
    assert!(p.rename_is_safe("V1"));
    assert!(p.rename_is_safe("V9"));
    // A changeset id met twice around V2 cannot be renamed along.
    let mut q = Project::open(
        s("q/schemas"),
        s("q/changesets"),
        vec![schema("V1", 1), schema("V2", 2)],
        vec![changeset("V1", "V2", 1, 2, 12)],
        false,
    )
    .unwrap();
    assert!(q.rename_is_safe("V2"));
    q.add_changeset(changeset("V2", "V3", 2, 3, 12)).unwrap_err();
    assert!(!q.rename_is_safe("V2"));
    assert!(q.rename_is_safe("V1"));
}

#[test]
fn migrations_along_walks_of_three_schemas() {
    let mut p = project();
    p.add_schema(schema("V0.0", 1)).unwrap();
    p.add_schema(schema("V0.1", 2)).unwrap();
    p.add_schema(schema("V0.2", 3)).unwrap();
    p.add_changeset(changeset("V0.0", "V0.1", 1, 2, 1)).unwrap();
    p.add_changeset(changeset("V0.1", "V0.2", 2, 3, 2)).unwrap();
    let code = p.transitive_migrations("out");
    assert_eq!(code.len(), 1);
    let expected = "\nimpl<NK, EK> DirectMigration<NK, EK, super::super::v0_2::V0_2<NK, EK>> for V0_0<NK, EK>\n\
where\n    NK: Key,\n    EK: Key,\n{\n    fn migrate(\n        g: TypedGraph<NK, EK, Self>\n    \
) -> GenericTypedResult<TypedGraph<NK, EK, super::super::v0_2::V0_2<NK, EK>>, NK, EK> {\n        \
g.migrate_direct::<super::super::v0_1::V0_1<_, _>>()?\n           .migrate_direct()\n    }\n}\n";
    assert_eq!(code.get(&s("out/v0_0/schema.rs")), Some(Some(s(expected))));
    // Two schemas make no walk long enough.
    let mut q = project();
    q.add_changeset(changeset("V0.0", "V0.1", 1, 2, 1)).unwrap();
    assert_eq!(q.transitive_migrations("out").len(), 0);
}

#[test]
fn a_new_link_is_checked_before_a_changeset_is_built() {
    let mut p = project();
    p.add_schema(schema("V1", 1)).unwrap();
    p.add_schema(schema("V2", 2)).unwrap();
    assert_eq!(p.check_new_link(&s("V1"), &s("V2")), Ok(()));
    assert_eq!(p.check_new_link(&s("V0"), &s("V2")), Err(GenError::UnknownSchema { name: s("V0") }));
    assert_eq!(p.check_new_link(&s("V1"), &s("V3")), Err(GenError::UnknownSchema { name: s("V3") }));
    assert_eq!(p.create_changeset(&s("V1"), &s("V2"), changeset("V1", "V2", 1, 2, 3)), Ok(3));
    assert_eq!(
        p.check_new_link(&s("V1"), &s("V2")),
        Err(GenError::DuplicateKeys { kind: s("changeset"), old: s("V1"), new: s("V2"), old_hash: 1, new_hash: 2 })
    );
    assert_eq!(
        p.check_new_link(&s("V2"), &s("V1")),
        Err(GenError::DuplicateKeys { kind: s("changeset"), old: s("V1"), new: s("V2"), old_hash: 1, new_hash: 2 })
    );
    let c = p.get_changeset(&3).unwrap();
    assert_eq!((c.old_version.as_str(), c.new_version.as_str(), c.old_hash, c.new_hash), ("V1", "V2", 1, 2));
}

#[test]
fn a_checked_copy_name_refuses_an_unsafe_count() {
    let mut p = project();
    p.add_schema(schema("V1", 1)).unwrap();
    p.add_schema(schema("V\u{1D7FF}", 2)).unwrap();
    assert_eq!(p.try_copy_name(&s("V1"), true), Some(Ok(s("V2"))));
    assert_eq!(p.try_copy_name(&s("V1"), false), Some(Ok(s("V1_copy"))));
    assert_eq!(p.try_copy_name(&s("V\u{1D7FF}"), true), None);
    assert_eq!(p.try_copy_name(&s("V\u{1D7FF}"), false), Some(Ok(s("V\u{1D7FF}_copy"))));
    assert_eq!(p.try_copy_name(&s("V7"), true), Some(Err(GenError::UnknownSchema { name: s("V7") })));
}
