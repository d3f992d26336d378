use typed_graph_cli::code_generator::{CodeGenerator, Python, Rust};
use typed_graph_cli::edge_representation::LowerBound;
use typed_graph_cli::project::Project;
use typed_graph_cli::python_schema::py_schema_aggregate_content;
use typed_graph_cli::rust_schema::{schema_aggregate_content, schema_folders};
use typed_graph_cli::schema::{
    Attributes, ChangeSet, Comments, EdgeExp, EndPoint, EnumExp, EnumVarient, FieldValue, NodeExp, QuantityBound,
    Quantifier, Schema, SchemaStm, Visibility,
};
use typed_graph_cli::types::Types;

fn s(x: &str) -> String {
    x.to_string()
}

fn no_attributes() -> Attributes {
    Attributes {
        skipped: false,
        default: false,
        untagged: false,
        aliases: Vec::new(),
        functions: Vec::new(),
        key_values: Vec::new(),
    }
}

fn no_comments() -> Comments {
    Comments { doc: Vec::new(), other: Vec::new() }
}

fn field(name: &str, ty: Types) -> FieldValue {
    FieldValue {
        name: s(name),
        field_type: ty,
        visibility: Visibility::Public,
        attributes: no_attributes(),
        comments: no_comments(),
    }
}

fn any() -> Quantifier {
    Quantifier { bounds: None, quantity: QuantityBound::Unbounded }
}

fn unit(name: &str) -> EnumVarient {
    EnumVarient::Unit { name: s(name), comments: no_comments(), attributes: no_attributes() }
}

/// The school schema of the getting started guide.
fn school() -> Schema {
    Schema {
        version: s("V0.0"),
        content: vec![
            SchemaStm::Node(NodeExp {
                name: s("Student"),
                comments: no_comments(),
                attributes: no_attributes(),
                fields: vec![field("name", Types::Str), field("age", Types::Usize)],
            }),
            SchemaStm::Node(NodeExp {
                name: s("Classes"),
                comments: no_comments(),
                attributes: no_attributes(),
                fields: vec![field("name", Types::Str)],
            }),
            SchemaStm::Edge(EdgeExp {
                name: s("Attendance"),
                comments: Comments { doc: Vec::new(), other: vec![s("A student can attend n classes")] },
                attributes: no_attributes(),
                fields: vec![field(
                    "grades",
                    Types::Optional { inner: Box::new(Types::Reference { inner: s("Grades"), generics: Vec::new() }) },
                )],
                endpoints: vec![EndPoint {
                    source: s("Student"),
                    target: s("Classes"),
                    quantity: any(),
                    incoming_quantity: any(),
                    outgoing_quantity: Quantifier { bounds: Some((LowerBound::Zero, 9)), quantity: QuantityBound::Unbounded },
                    attributes: no_attributes(),
                }],
            }),
            SchemaStm::Enum(EnumExp {
                name: s("Grades"),
                comments: no_comments(),
                attributes: no_attributes(),
                generics: Vec::new(),
                varients: vec![unit("A"), unit("B"), unit("C"), unit("D"), unit("E"), unit("F")],
            }),
        ],
        hash: 0,
    }
}

#[test]
fn rust_export_lays_out_the_schema_folder() {
    let sc = school();
    let folders = schema_folders(&sc, "my_first_typed_graph/src/graph");
    let g = schema_aggregate_content(&sc, &Vec::new(), &folders).unwrap();
    let root = "my_first_typed_graph/src/graph/v0_0";
    let with_content = [
        "nodes/student.rs",
        "nodes/classes.rs",
        "nodes/mod.rs",
        "edges/attendance.rs",
        "edges/mod.rs",
        "structs/mod.rs",
        "types/grades.rs",
        "types/mod.rs",
        "schema.rs",
        "node.rs",
        "edge.rs",
        "node_type.rs",
        "edge_type.rs",
        "mod.rs",
    ];
    for f in with_content {
        let path = format!("{root}/{f}");
        assert!(matches!(g.get(&path), Some(Some(_))), "{path}");
    }
    // The imports file is created without content, so that what is written there is kept.
    assert_eq!(g.get(&format!("{root}/imports.rs")), Some(None));
    assert_eq!(g.len(), with_content.len() + 1);
    let student = g.get(&format!("{root}/nodes/student.rs")).unwrap().unwrap();
    assert!(student.contains("pub struct Student<NK>"));
    let getters = g.get(&format!("{root}/nodes/classes.rs")).unwrap().unwrap();
    assert!(getters.contains("Attendance"));
}

#[test]
fn python_export_lays_out_the_schema_package() {
    let sc = school();
    let folders = schema_folders(&sc, "py");
    let g = py_schema_aggregate_content(&sc, &folders).unwrap();
    for f in ["nodes/student.py", "nodes/classes.py", "edges/attendance.py", "types/grades.py", "schema.py", "__init__.py"] {
        let path = format!("py/v0_0/{f}");
        assert!(matches!(g.get(&path), Some(Some(_))), "{path}");
    }
    assert_eq!(g.get(&s("py/v0_0/imports.py")), Some(None));
}

fn school_project() -> Project {
    let mut p = Project::new(s("project/schemas"), s("project/changesets"));
    p.add_schema(school()).unwrap();
    let mut next = school();
    next.version = s("V0.1");
    next.hash = 1;
    p.add_schema(next).unwrap();
    p.add_changeset(ChangeSet {
        old_version: s("V0.0"),
        new_version: s("V0.1"),
        old_hash: 0,
        new_hash: 1,
        id: 5,
        handler: None,
        changes: Vec::new(),
    })
    .unwrap();
    p
}

#[test]
fn rust_export_of_a_project() {
    let p = school_project();
    let g = CodeGenerator::<Rust>::aggregate_content(&p, "out").unwrap();
    assert!(matches!(g.get(&s("out/v0_0/nodes/student.rs")), Some(Some(_))));
    assert!(matches!(g.get(&s("out/v0_1/nodes/student.rs")), Some(Some(_))));
    let schema_rs = g.get(&s("out/v0_1/schema.rs")).unwrap().unwrap();
    assert!(schema_rs.contains("        &[\n            \"V0.0\",\n        ]\n"));
    let root_rs = g.get(&s("out/v0_0/schema.rs")).unwrap().unwrap();
    assert!(root_rs.contains("        &[\n        ]\n"));
    let any = g.get(&s("out/any_schema.rs")).unwrap().unwrap();
    assert!(any.contains("    V0_0(V0_0<NK, EK>),\n    V0_1(V0_1<NK, EK>),\n"));
    assert!(matches!(g.get(&s("out/any_graph.rs")), Some(Some(_))));
    assert_eq!(g.get(&s("out/imports.rs")), Some(None));
    let m = g.get(&s("out/mod.rs")).unwrap().unwrap();
    assert!(m.contains("pub mod v0_0;\n#[allow(unused)]\npub use v0_0::V0_0;\n"));
    assert_eq!(CodeGenerator::<Rust>::get_filename(&p), "");
}

#[test]
fn python_export_of_a_project() {
    let p = school_project();
    let g = CodeGenerator::<Python>::aggregate_content(&p, "py").unwrap();
    assert!(matches!(g.get(&s("py/v0_0/nodes/student.py")), Some(Some(_))));
    assert!(matches!(g.get(&s("py/v0_1/schema.py")), Some(Some(_))));
    assert_eq!(g.get(&s("py/__init__.py")), Some(None));
    assert_eq!(g.get(&s("py/imports.py")), Some(None));
}
