use typed_graph_cli::book_pages::populate_schema_context;
use typed_graph_cli::listing::{list_versions, version_listing};
use typed_graph_cli::error::GenError;
use typed_graph_cli::project::Project;
use typed_graph_cli::schema::{ChangeSet, Schema};

fn entry(from: &str, to: &str, id: u64) -> (String, String, u64) {
    (from.to_string(), to.to_string(), id)
}

#[test]
fn listing_draws_each_head_with_its_ancestors() {
    let heads = vec!["v3".to_string(), "v2b".to_string()];
    let backward = vec![entry("v2", "v1", 1), entry("v3", "v2", 2), entry("v2b", "v1", 3)];
    let lines = version_listing(&heads, &backward).unwrap();
    assert_eq!(lines, vec!["v2b", "├──v1", "v3", "├──v2", "│  ├──v1"]);
}

#[test]
fn listing_of_a_single_schema_is_its_name() {
    let heads = vec!["only".to_string()];
    let lines = version_listing(&heads, &Vec::new()).unwrap();
    assert_eq!(lines, vec!["only"]);
}

#[test]
fn listing_lists_later_parents_first() {
    let heads = vec!["merged".to_string()];
    let backward = vec![entry("merged", "a", 1), entry("merged", "b", 2)];
    let lines = version_listing(&heads, &backward).unwrap();
    assert_eq!(lines, vec!["merged", "├──b", "├──a"]);
}

#[test]
fn listing_refuses_a_cycle() {
    let heads = vec!["a".to_string()];
    let backward = vec![entry("a", "b", 1), entry("b", "c", 2), entry("c", "b", 3)];
    assert_eq!(version_listing(&heads, &backward), None);
}

fn schema(v: &str, hash: u64) -> Schema {
    Schema { version: v.to_string(), content: Vec::new(), hash }
}

fn changeset(old: &str, new: &str, old_hash: u64, new_hash: u64, id: u64) -> ChangeSet {
    ChangeSet {
        old_version: old.to_string(),
        new_version: new.to_string(),
        old_hash,
        new_hash,
        id,
        handler: None,
        changes: Vec::new(),
    }
}

#[test]
fn project_listing_starts_from_its_heads() {
    let mut p = Project::new("s".to_string(), "c".to_string());
    p.add_schema(schema("V1", 1)).unwrap();
    p.add_schema(schema("V2", 2)).unwrap();
    p.add_schema(schema("V3", 3)).unwrap();
    p.add_changeset(changeset("V1", "V2", 1, 2, 10)).unwrap();
    p.add_changeset(changeset("V2", "V3", 2, 3, 11)).unwrap();
    assert_eq!(list_versions(&p).unwrap(), vec!["V3", "├──V2", "│  ├──V1"]);
}

#[test]
fn book_sections_put_heads_first() {
    let mut p = Project::new("s".to_string(), "c".to_string());
    p.add_schema(schema("V1", 1)).unwrap();
    p.add_schema(schema("V2", 2)).unwrap();
    p.add_schema(schema("W", 4)).unwrap();
    p.add_changeset(changeset("V1", "V2", 1, 2, 10)).unwrap();
    let (main, other) = populate_schema_context(&p);
    assert_eq!(main, vec!["V2".to_string(), "W".to_string()]);
    assert_eq!(other, vec!["V1".to_string()]);
}

#[test]
fn missing_schemas_are_built_from_the_oldest() {
    let mut p = Project::new("s".to_string(), "c".to_string());
    p.add_schema(schema("V1", 1)).unwrap();
    p.add_changeset(changeset("V1", "V2", 1, 2, 10)).unwrap();
    p.add_changeset(changeset("V2", "V3", 2, 3, 11)).unwrap();
    assert!(p.is_plannable());
    assert_eq!(p.missing_schema_plan(), Ok(vec![10, 11]));
}

#[test]
fn nothing_to_build_when_no_schema_is_missing() {
    let mut p = Project::new("s".to_string(), "c".to_string());
    p.add_schema(schema("V1", 1)).unwrap();
    p.add_schema(schema("V2", 2)).unwrap();
    p.add_changeset(changeset("V1", "V2", 1, 2, 10)).unwrap();
    assert_eq!(p.missing_schema_plan(), Ok(Vec::new()));
}

#[test]
fn a_missing_root_is_unreachable() {
    let mut p = Project::new("s".to_string(), "c".to_string());
    p.add_changeset(changeset("V1", "V2", 1, 2, 10)).unwrap();
    assert!(p.is_plannable());
    assert_eq!(p.missing_schema_plan(), Err(GenError::UnreachableSchema { target: "V1".to_string() }));
}
