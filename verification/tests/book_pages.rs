use typed_graph_cli::book_examples::{gen_schema_example, gen_type_def, gen_varient_example};
use typed_graph_cli::book_pages::{
    create_ref_name, populate_edge, populate_edges_section_header, populate_imports_section_header, populate_node,
    populate_nodes_section_header, populate_statement_context, populate_struct, populate_structs_section_header,
    populate_types, populate_types_section_header, StatementPage, VarientType,
};
use typed_graph_cli::edge_representation::LowerBound;
use typed_graph_cli::error::GenError;
use typed_graph_cli::schema::{
    Attributes, Comments, EdgeExp, EndPoint, EnumExp, EnumVarient, FieldValue, ImportExp, NodeExp, QuantityBound,
    Quantifier, Schema, SchemaStm, StructExp, Visibility,
};
use typed_graph_cli::types::Types;

fn s(x: &str) -> String {
    x.to_string()
}

fn no_attributes() -> Attributes {
    Attributes {
        skipped: false,
        default: false,
        untagged: false,
        aliases: Vec::new(),
        functions: Vec::new(),
        key_values: Vec::new(),
    }
}

fn comments(doc: &[&str], other: &[&str]) -> Comments {
    Comments { doc: doc.iter().map(|x| s(x)).collect(), other: other.iter().map(|x| s(x)).collect() }
}

fn field(name: &str, ty: Types, doc: &[&str]) -> FieldValue {
    FieldValue {
        name: s(name),
        field_type: ty,
        visibility: Visibility::Public,
        attributes: no_attributes(),
        comments: comments(doc, &[]),
    }
}

fn quantity(bounds: Option<(LowerBound, u32)>) -> Quantifier {
    Quantifier { bounds, quantity: QuantityBound::Unbounded }
}

fn endpoint(source: &str, target: &str, outgoing: u32, incoming: u32) -> EndPoint {
    EndPoint {
        source: s(source),
        target: s(target),
        quantity: quantity(None),
        incoming_quantity: quantity(Some((LowerBound::Zero, incoming))),
        outgoing_quantity: quantity(Some((LowerBound::One, outgoing))),
        attributes: no_attributes(),
    }
}

fn user() -> NodeExp {
    NodeExp {
        name: s("User"),
        comments: comments(&["A person", "using the app"], &["internal"]),
        attributes: no_attributes(),
        fields: vec![field("name", Types::Str, &["Full name"])],
    }
}

fn item() -> NodeExp {
    NodeExp { name: s("Item"), comments: comments(&[], &[]), attributes: no_attributes(), fields: Vec::new() }
}

fn owns() -> EdgeExp {
    EdgeExp {
        name: s("Owns"),
        comments: comments(&["Ownership"], &[]),
        attributes: no_attributes(),
        fields: vec![field("since", Types::U64, &[])],
        endpoints: vec![endpoint("User", "Item", 3, 1), endpoint("Item", "Item", 5, 6)],
    }
}

fn pair() -> StructExp {
    StructExp {
        name: s("Pair"),
        comments: comments(&[], &[]),
        attributes: no_attributes(),
        generics: vec![s("A"), s("B")],
        fields: vec![field("left", Types::Reference { inner: s("A"), generics: Vec::new() }, &[])],
    }
}

fn color() -> EnumExp {
    EnumExp {
        name: s("Color"),
        comments: comments(&["Colours"], &[]),
        attributes: no_attributes(),
        generics: Vec::new(),
        varients: vec![
            EnumVarient::Unit { name: s("Red"), comments: comments(&[], &[]), attributes: no_attributes() },
            EnumVarient::Opaque {
                name: s("Grey"),
                comments: comments(&["Shade"], &[]),
                attributes: no_attributes(),
                ty: Types::U8,
            },
            EnumVarient::Struct {
                name: s("Rgb"),
                comments: comments(&[], &[]),
                attributes: no_attributes(),
                fields: vec![field("r", Types::U8, &[])],
            },
        ],
    }
}

fn schema() -> Schema {
    Schema {
        version: s("V1"),
        content: vec![
            SchemaStm::Node(user()),
            SchemaStm::Node(item()),
            SchemaStm::Edge(owns()),
            SchemaStm::Struct(pair()),
            SchemaStm::Enum(color()),
            SchemaStm::Import(ImportExp { name: s("Extern"), comments: comments(&["From elsewhere"], &[]) }),
        ],
        hash: 0,
    }
}

fn no_scope() -> Vec<(String, Option<Types>)> {
    Vec::new()
}

#[test]
fn ref_names_are_anchors() {
    assert_eq!(create_ref_name("Foo\\<A, B\\>"), "fooa-b");
    assert_eq!(create_ref_name("User"), "user");
    assert_eq!(create_ref_name(""), "");
}

#[test]
fn section_headers_list_statements_by_kind() {
    let sc = schema();
    assert_eq!(populate_nodes_section_header(&sc), vec![s("User"), s("Item")]);
    assert_eq!(populate_edges_section_header(&sc), vec![s("Owns")]);
    assert_eq!(populate_structs_section_header(&sc), vec![s("Pair")]);
    assert_eq!(populate_types_section_header(&sc), vec![s("Color")]);
    let imports = populate_imports_section_header(&sc);
    assert_eq!(imports.len(), 1);
    assert_eq!(imports[0].name, "Extern");
    assert_eq!(imports[0].doc_comments, "From elsewhere");
    assert_eq!(imports[0].comments, "");
}

#[test]
fn node_page_shows_fields_and_endpoints() {
    let sc = schema();
    let page = populate_node(&user(), &sc).unwrap();
    assert_eq!(page.node_name, "User");
    assert_eq!(page.doc_comments, "A person  \nusing the app");
    assert_eq!(page.comments, "internal");
    assert_eq!(page.fields.len(), 1);
    assert_eq!(page.fields[0].name, "name");
    assert_eq!(page.fields[0].ty, "<a href=\"../../primitives.md#string\">String</a>");
    assert_eq!(page.fields[0].doc_comments, "Full name");
    assert_eq!(page.outgoing_endpoints.len(), 1);
    let out = &page.outgoing_endpoints[0];
    assert_eq!(out.edge, "[Owns](../edges/Owns.md)");
    assert_eq!(out.source, "[User](../nodes/User.md)");
    assert_eq!(out.target, "[Item](../nodes/Item.md)");
    assert_eq!(out.bounds.bounds, Some((LowerBound::One, 3)));
    assert!(page.incoming_endpoints.is_empty());
    let expected = gen_schema_example(&sc.content[0], 0, &sc, &no_scope()).unwrap();
    assert_eq!(page.example, expected);
}

#[test]
fn node_page_lists_incoming_endpoints() {
    let sc = schema();
    let page = populate_node(&item(), &sc).unwrap();
    assert_eq!(page.outgoing_endpoints.len(), 1);
    assert_eq!(page.outgoing_endpoints[0].bounds.bounds, Some((LowerBound::One, 5)));
    assert_eq!(page.incoming_endpoints.len(), 2);
    assert_eq!(page.incoming_endpoints[0].source, "[User](../nodes/User.md)");
    assert_eq!(page.incoming_endpoints[0].bounds.bounds, Some((LowerBound::Zero, 1)));
    assert_eq!(page.incoming_endpoints[1].bounds.bounds, Some((LowerBound::Zero, 6)));
}

#[test]
fn node_page_of_an_undeclared_node_fails() {
    let sc = Schema { version: s("V1"), content: Vec::new(), hash: 0 };
    assert_eq!(populate_node(&user(), &sc).err(), Some(GenError::UnknownReference { name: s("User") }));
}

#[test]
fn edge_page_shows_endpoints() {
    let sc = schema();
    let page = populate_edge(&owns(), &sc).unwrap();
    assert_eq!(page.edge_name, "Owns");
    assert_eq!(page.doc_comments, "Ownership");
    assert_eq!(page.fields[0].ty, "<a href=\"../../primitives.md#u8-u16-u32-u64-usize\">u64</a>");
    assert_eq!(page.endpoints.len(), 2);
    assert_eq!(page.endpoints[1].source, "[Item](../nodes/Item.md)");
    assert_eq!(page.endpoints[1].outgoing_bounds.bounds, Some((LowerBound::One, 5)));
    assert_eq!(page.endpoints[1].incoming_bounds.bounds, Some((LowerBound::Zero, 6)));
    let expected = gen_schema_example(&sc.content[2], 0, &sc, &no_scope()).unwrap();
    assert_eq!(page.example, expected);
}

#[test]
fn struct_page_names_its_letters() {
    let sc = schema();
    let page = populate_struct(&pair(), &sc).unwrap();
    assert_eq!(page.struct_name, "Pair\\<A, B\\>");
    // A letter is declared by no statement, so it links to the anchor of the page.
    assert_eq!(page.fields[0].ty, "<a href=\"#paira-b\">A</a>");
    let scope = vec![(s("A"), None), (s("B"), None)];
    let expected = gen_schema_example(&sc.content[3], 0, &sc, &scope).unwrap();
    assert_eq!(page.example, expected);
}

#[test]
fn type_page_describes_each_variant() {
    let sc = schema();
    let page = populate_types(&color(), &sc).unwrap();
    assert_eq!(page.enum_name, "Color");
    assert_eq!(page.doc_comments, "Colours");
    assert_eq!(page.varients.len(), 3);
    assert_eq!(page.varients[0].varient_type, VarientType::Unit);
    assert!(page.varients[0].root_ty.is_none());
    assert_eq!(page.varients[1].varient_type, VarientType::Opaque);
    assert_eq!(page.varients[1].root_ty, Some(gen_type_def(&Types::U8, "color", &sc).unwrap()));
    assert_eq!(page.varients[1].doc_comments, "Shade");
    assert_eq!(page.varients[2].varient_type, VarientType::Struct);
    let rgb = page.varients[2].root_fields.as_ref().unwrap();
    assert_eq!(rgb[0].name, "r");
    for (i, v) in color().varients.iter().enumerate() {
        assert_eq!(page.varients[i].example, gen_varient_example(v, 0, &sc, &no_scope()).unwrap());
    }
}

#[test]
fn type_page_fails_on_the_first_bad_variant() {
    let sc = schema();
    let mut en = color();
    en.varients.push(EnumVarient::Opaque {
        name: s("Bad"),
        comments: comments(&[], &[]),
        attributes: no_attributes(),
        ty: Types::Reference { inner: s("Missing"), generics: Vec::new() },
    });
    assert_eq!(populate_types(&en, &sc).err(), Some(GenError::UnknownReference { name: s("Missing") }));
}

#[test]
fn statement_pages_follow_the_schema() {
    let sc = schema();
    let pages = populate_statement_context(&sc).unwrap();
    assert_eq!(pages.len(), 6);
    assert!(matches!(pages[0], Some(StatementPage::Node(_))));
    assert!(matches!(pages[2], Some(StatementPage::Edge(_))));
    assert!(matches!(pages[3], Some(StatementPage::Struct(_))));
    assert!(matches!(pages[4], Some(StatementPage::Type(_))));
    assert!(pages[5].is_none());
}
