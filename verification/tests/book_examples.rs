use typed_graph_cli::book_examples::{
    expand_type, gen_field_example, gen_field_example_within, gen_schema_example, gen_schema_example_within,
    gen_type_def, gen_type_example, gen_type_example_within, gen_varient_example, gen_varient_example_within,
};
use typed_graph_cli::book_pages::page_examples_end_within;
use typed_graph_cli::error::GenError;
use typed_graph_cli::schema::{
    Attributes, Comments, EdgeExp, EnumExp, EnumVarient, FieldValue, ImportExp, NodeExp, Schema, SchemaStm,
    StructExp, Visibility,
};
use typed_graph_cli::types::Types;

fn s(x: &str) -> String {
    x.to_string()
}

fn ind(n: usize) -> String {
    "     ".repeat(n)
}

fn no_attributes() -> Attributes {
    Attributes {
        skipped: false,
        default: false,
        untagged: false,
        aliases: Vec::new(),
        functions: Vec::new(),
        key_values: Vec::new(),
    }
}

fn no_comments() -> Comments {
    Comments { doc: Vec::new(), other: Vec::new() }
}

fn field(name: &str, ty: Types) -> FieldValue {
    FieldValue {
        name: s(name),
        field_type: ty,
        visibility: Visibility::Public,
        attributes: no_attributes(),
        comments: no_comments(),
    }
}

fn reference(name: &str, generics: Vec<Types>) -> Types {
    Types::Reference { inner: s(name), generics }
}

fn schema(content: Vec<SchemaStm>) -> Schema {
    Schema { version: s("V0.0"), content, hash: 0 }
}

fn no_scope() -> Vec<(String, Option<Types>)> {
    Vec::new()
}

#[test]
fn primitive_examples() {
    let sc = schema(Vec::new());
    assert_eq!(gen_type_example(&Types::U8, true, 0, &sc, &no_scope()), Ok(s("\"123\"")));
    assert_eq!(gen_type_example(&Types::U8, false, 0, &sc, &no_scope()), Ok(s("123")));
    assert_eq!(gen_type_example(&Types::I32, false, 0, &sc, &no_scope()), Ok(s("-1234")));
    assert_eq!(gen_type_example(&Types::F32, true, 0, &sc, &no_scope()), Ok(s("\"1234.567\"")));
    assert_eq!(gen_type_example(&Types::Bool, false, 0, &sc, &no_scope()), Ok(s("false")));
    // Text is always quoted, and quoted once.
    assert_eq!(
        gen_type_example(&Types::Str, true, 0, &sc, &no_scope()),
        Ok(s("\"Lorem ipsum dolor sit amet\""))
    );
    let opt = Types::Optional { inner: Box::new(Types::Usize) };
    assert_eq!(gen_type_example(&opt, true, 3, &sc, &no_scope()), Ok(s("1234")));
}

#[test]
fn list_and_map_examples() {
    let sc = schema(Vec::new());
    let list = Types::List { inner: Box::new(Types::Usize) };
    assert_eq!(gen_type_example(&list, false, 0, &sc, &no_scope()), Ok(s("[\n     1234,\n     ...\n]")));
    let map = Types::MapOf { key: Box::new(Types::U16), value: Box::new(Types::Bool) };
    let expected = format!("{{\n{}\"1234\": false,\n{}...\n{}}}", ind(2), ind(2), ind(1));
    assert_eq!(gen_type_example(&map, false, 1, &sc, &no_scope()), Ok(expected));
}

#[test]
fn node_edge_and_enum_examples() {
    let student = SchemaStm::Node(NodeExp {
        name: s("Student"),
        comments: no_comments(),
        attributes: no_attributes(),
        fields: vec![field("name", Types::Str), field("age", Types::Usize)],
    });
    let grades = SchemaStm::Enum(EnumExp {
        name: s("Grades"),
        comments: no_comments(),
        attributes: no_attributes(),
        generics: Vec::new(),
        varients: vec![
            EnumVarient::Unit { name: s("A"), comments: no_comments(), attributes: no_attributes() },
            EnumVarient::Unit { name: s("B"), comments: no_comments(), attributes: no_attributes() },
        ],
    });
    let attends = SchemaStm::Edge(EdgeExp {
        name: s("Attends"),
        comments: no_comments(),
        attributes: no_attributes(),
        fields: vec![field("w", Types::U8)],
        endpoints: Vec::new(),
    });
    let sc = schema(Vec::new());

    let fields = format!(
        "{{\n{}\"id\": /* NodeId */,\n{}\"name\": \"Lorem ipsum dolor sit amet\",\n{}\"age\": 1234\n{}}}",
        ind(2),
        ind(2),
        ind(2),
        ind(1)
    );
    let node = format!("{{\n{}\"Student\": {}\n}}", ind(1), fields);
    assert_eq!(gen_schema_example(&student, 0, &sc, &no_scope()), Ok(node));

    assert_eq!(gen_schema_example(&grades, 0, &sc, &no_scope()), Ok(format!("\"A\"\n{}| \"B\"", ind(1))));

    let edge_fields = format!("{{\n{}\"id\": /* EdgeId */,\n{}\"w\": 123\n{}}}", ind(3), ind(3), ind(2));
    let weight = format!("{{\n{}\"Attends\": {}\n{}}}", ind(2), edge_fields, ind(1));
    let edge = format!(
        "{{\n{}\"weight\": {},\n{}\"source\": /* NodeId */,\n{}\"target\": /* NodeId */\n}}\n",
        ind(1),
        weight,
        ind(1),
        ind(1)
    );
    assert_eq!(gen_schema_example(&attends, 0, &sc, &no_scope()), Ok(edge));
}

#[test]
fn field_and_variant_examples() {
    let sc = schema(Vec::new());
    assert_eq!(gen_field_example(&Vec::new(), 0, None, &sc, &no_scope()), Ok(s("{}")));
    assert_eq!(
        gen_field_example(&Vec::new(), 0, Some(s("NodeId")), &sc, &no_scope()),
        Ok(format!("{{\n{}\"id\": /* NodeId */\n}}", ind(1)))
    );
    let opaque = EnumVarient::Opaque {
        name: s("Score"),
        comments: no_comments(),
        attributes: no_attributes(),
        ty: Types::U8,
    };
    assert_eq!(
        gen_varient_example(&opaque, 0, &sc, &no_scope()),
        Ok(format!("{{\n{}\"Score\": 123\n}}", ind(1)))
    );
}

#[test]
fn references_resolve_generics_and_report_unknown_names() {
    let pair = SchemaStm::Struct(StructExp {
        name: s("Pair"),
        comments: no_comments(),
        attributes: no_attributes(),
        generics: vec![s("T")],
        fields: vec![field("a", reference("T", Vec::new()))],
    });
    let sc = schema(vec![pair]);
    let with_u8 = reference("Pair", vec![Types::U8]);
    assert_eq!(gen_type_example(&with_u8, false, 0, &sc, &no_scope()), Ok(format!("{{\n{}\"a\": 123\n}}", ind(1))));

    let missing = reference("Missing", Vec::new());
    assert_eq!(
        gen_type_example(&missing, false, 0, &sc, &no_scope()),
        Err(GenError::UnknownReference { name: s("Missing") })
    );

    // A letter standing for nothing is shown by name.
    let scope = vec![(s("T"), None)];
    assert_eq!(gen_type_example(&reference("T", Vec::new()), false, 0, &sc, &scope), Ok(s("/* T */")));
    // A reference to the letter itself leaves it open.
    let open = reference("Pair", vec![reference("T", Vec::new())]);
    assert_eq!(gen_type_example(&open, false, 0, &sc, &no_scope()), Ok(format!("{{\n{}\"a\": /* T */\n}}", ind(1))));
}

#[test]
fn expansion_replaces_letters_of_the_scope() {
    let scope = vec![(s("T"), Some(Types::Bool)), (s("U"), None)];
    let ty = Types::Optional { inner: Box::new(reference("T", Vec::new())) };
    match expand_type(&ty, &scope) {
        Ok(Types::Optional { inner }) => assert!(matches!(*inner, Types::Bool)),
        _ => panic!("expected an option"),
    }
    match expand_type(&reference("U", Vec::new()), &scope) {
        Ok(Types::Reference { inner, generics }) => {
            assert_eq!(inner, s("U"));
            assert!(generics.is_empty());
        },
        _ => panic!("expected a reference"),
    }
    match expand_type(&reference("Pair", vec![reference("T", Vec::new())]), &scope) {
        Ok(Types::Reference { inner, generics }) => {
            assert_eq!(inner, s("Pair"));
            assert!(matches!(generics[0], Types::Bool));
        },
        _ => panic!("expected a reference"),
    }
    // A later entry of the scope replaces an earlier one.
    let later = vec![(s("T"), Some(Types::Bool)), (s("T"), Some(Types::U8))];
    assert!(matches!(expand_type(&reference("T", Vec::new()), &later), Ok(Types::U8)));
}

#[test]
fn type_definitions_link_to_their_pages() {
    let sc = schema(vec![
        SchemaStm::Import(ImportExp { name: s("MyImport"), comments: no_comments() }),
        SchemaStm::Node(NodeExp {
            name: s("Student"),
            comments: no_comments(),
            attributes: no_attributes(),
            fields: Vec::new(),
        }),
    ]);
    let u8_link = "<a href=\"../../primitives.md#u8-u16-u32-u64-usize\">u8</a>";
    let bool_link = "<a href=\"../../primitives.md#bool\">bool</a>";
    let opt = Types::Optional { inner: Box::new(Types::U8) };
    assert_eq!(
        gen_type_def(&opt, "x", &sc),
        Ok(format!("<a href=\"../../primitives.md#optiont\">Option</a><{u8_link}>"))
    );
    let set = Types::SetOf { inner: Box::new(Types::Bool) };
    assert_eq!(gen_type_def(&set, "x", &sc), Ok(format!("<a href=\"../../primitives.md#sett\">List</a><{bool_link}>")));
    // Imports are anchors of the imports page, in lower case.
    assert_eq!(
        gen_type_def(&reference("MyImport", Vec::new()), "x", &sc),
        Ok(s("<a href=\"../imports.md#myimport\">MyImport</a>"))
    );
    assert_eq!(
        gen_type_def(&reference("Student", vec![Types::U8, Types::Bool]), "x", &sc),
        Ok(format!("<a href=\"../nodes/Student.md\">Student</a><{u8_link}, {bool_link}>"))
    );
    // A name no statement declares points at the anchor of the page.
    assert_eq!(gen_type_def(&reference("T", Vec::new()), "pair", &sc), Ok(s("<a href=\"#pair\">T</a>")));
}

fn endless_schema() -> Schema {
    // A struct that holds itself: its example never ends.
    let me = SchemaStm::Struct(StructExp {
        name: s("Me"),
        comments: no_comments(),
        attributes: no_attributes(),
        generics: Vec::new(),
        fields: vec![field("me", reference("Me", Vec::new()))],
    });
    schema(vec![me])
}

#[test]
fn a_budgeted_example_that_ends_is_the_unbudgeted_one() {
    let pair_stm = || {
        SchemaStm::Struct(StructExp {
            name: s("Pair"),
            comments: no_comments(),
            attributes: no_attributes(),
            generics: vec![s("T")],
            fields: vec![field("a", reference("T", Vec::new()))],
        })
    };
    let pair = pair_stm();
    let sc = schema(vec![pair_stm()]);
    let with_u8 = reference("Pair", vec![Types::U8]);
    let expected = Ok(format!("{{\n{}\"a\": 123\n}}", ind(1)));
    assert_eq!(gen_type_example_within(&with_u8, false, 0, &sc, &no_scope(), 10), expected);
    assert_eq!(gen_type_example(&with_u8, false, 0, &sc, &no_scope()), expected);
    assert_eq!(
        gen_type_example_within(&reference("Missing", Vec::new()), false, 0, &sc, &no_scope(), 10),
        Err(GenError::UnknownReference { name: s("Missing") })
    );
    assert_eq!(
        gen_schema_example_within(&pair, 0, &sc, &vec![(s("T"), None)], 10),
        gen_schema_example(&pair, 0, &sc, &vec![(s("T"), None)])
    );
    assert_eq!(
        gen_field_example_within(&Vec::new(), 0, Some(s("NodeId")), &sc, &no_scope(), 3),
        Ok(format!("{{\n{}\"id\": /* NodeId */\n}}", ind(1)))
    );
    let opaque = EnumVarient::Opaque {
        name: s("Score"),
        comments: no_comments(),
        attributes: no_attributes(),
        ty: Types::U8,
    };
    assert_eq!(
        gen_varient_example_within(&opaque, 0, &sc, &no_scope(), 5),
        Ok(format!("{{\n{}\"Score\": 123\n}}", ind(1)))
    );
    assert!(page_examples_end_within(&sc, 10));
}

#[test]
fn a_budget_that_runs_out_gives_an_error() {
    let opaque = EnumVarient::Opaque {
        name: s("Score"),
        comments: no_comments(),
        attributes: no_attributes(),
        ty: Types::U8,
    };
    let sc = schema(Vec::new());
    assert!(matches!(gen_varient_example_within(&opaque, 0, &sc, &no_scope(), 1), Err(GenError::ExportFailed(_))));
    assert!(matches!(gen_type_example_within(&Types::U8, false, 0, &sc, &no_scope(), 0), Err(GenError::ExportFailed(_))));

    let endless = endless_schema();
    let me = reference("Me", Vec::new());
    assert!(matches!(
        gen_type_example_within(&me, false, 0, &endless, &no_scope(), 50),
        Err(GenError::ExportFailed(_))
    ));
    assert!(!page_examples_end_within(&endless, 50));
}
