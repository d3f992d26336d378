use typed_graph_cli::edge_representation::LowerBound;
use typed_graph_cli::generated_code::GeneratedCode;
use typed_graph_cli::python_endpoints::write_edge_endpoints_py;
use typed_graph_cli::rust_endpoints::write_edge_endpoints;
use typed_graph_cli::svg_labels::{edge_xlabel, head_label, node_label, schema_drawing, tail_label, DrawItem};
use typed_graph_cli::schema::{
    Attributes, Comments, EdgeExp, EndPoint, KeyValue, NodeExp, QuantityBound, Quantifier, Schema, SchemaStm,
};

fn s(x: &str) -> String {
    x.to_string()
}

fn no_attributes() -> Attributes {
    Attributes {
        skipped: false,
        default: false,
        untagged: false,
        aliases: Vec::new(),
        functions: Vec::new(),
        key_values: Vec::new(),
    }
}

fn no_comments() -> Comments {
    Comments { doc: Vec::new(), other: Vec::new() }
}

fn node(name: &str) -> SchemaStm {
    SchemaStm::Node(NodeExp {
        name: s(name),
        comments: no_comments(),
        attributes: no_attributes(),
        fields: Vec::new(),
    })
}

fn quantity(bounds: Option<(LowerBound, u32)>) -> Quantifier {
    Quantifier { bounds, quantity: QuantityBound::Unbounded }
}

fn endpoint(source: &str, target: &str, outgoing: Option<(LowerBound, u32)>, incoming: Option<(LowerBound, u32)>) -> EndPoint {
    EndPoint {
        source: s(source),
        target: s(target),
        quantity: quantity(None),
        incoming_quantity: quantity(incoming),
        outgoing_quantity: quantity(outgoing),
        attributes: no_attributes(),
    }
}

fn edge(name: &str, endpoints: Vec<EndPoint>) -> SchemaStm {
    SchemaStm::Edge(EdgeExp {
        name: s(name),
        comments: no_comments(),
        attributes: no_attributes(),
        fields: Vec::new(),
        endpoints,
    })
}

/// A schema with two nodes and one edge from `A` to exactly one `B`.
fn one_edge_schema() -> Schema {
    Schema {
        version: s("V0.0"),
        content: vec![
            node("A"),
            node("B"),
            edge("E", vec![endpoint("A", "B", Some((LowerBound::One, 1)), None)]),
        ],
        hash: 1,
    }
}

fn rust_head(fname: &str, ret: &str) -> String {
    let mut t = String::new();
    t.push_str("\n");
    t.push_str(&format!(
        "   pub fn {fname}<'a, EK>(&'a self, g: &'a TypedGraph<NK, EK, V0_0<NK, EK>>) -> {ret}\n"
    ));
    t.push_str("   where\n");
    t.push_str("       NK: Key,\n");
    t.push_str("       EK: Key,\n");
    t.push_str("   {\n");
    t.push_str("       Ok(g\n");
    t
}

fn rust_result_tail(names: &str) -> String {
    let mut t = String::new();
    t.push_str("           .next()\n");
    t.push_str(&format!(
        "           .ok_or_else(|| TypedError::InvalidLowerBound(self.get_id(), self.get_type(), \"[{names}]\".to_string()))?\n"
    ));
    t.push_str("       )\n");
    t.push_str("   }\n");
    t
}

#[test]
fn rust_getters_for_a_single_edge() {
    let schema = one_edge_schema();
    let mut g = GeneratedCode::new();
    write_edge_endpoints(&schema, &mut g, "nodes");
    assert_eq!(g.len(), 2);

    let result_b = "SchemaResult<(E, &'a B<NK>), NK, EK, V0_0<NK, EK>>";
    let mut a = String::new();
    a.push_str("\n#[allow(unused)]\nimpl<NK> A<NK> {\n");
    a.push_str(&rust_head("get_b_out", result_b));
    a.push_str("           .get_outgoing_filter(self.get_id(), |e| matches!(e.get_type(), EdgeType::E))?\n");
    a.push_str("           .filter_map(|e| Some((e.get_weight(), g.get_node_downcast(e.get_outer()).ok()?)))\n");
    a.push_str("           .map(|(e, n)| (Downcast::<_, _, &'a E<EK>, V0_0<NK, EK>>::downcast(e).unwrap(), n))\n");
    a.push_str(&rust_result_tail("E"));
    a.push_str(&rust_head("get_e_out", result_b));
    a.push_str("           .get_outgoing_filter(self.get_id(), |e| matches!(e.get_type(), EdgeType::E))?\n");
    a.push_str("           .map(|e| (Downcast::<_, _, &'a E<EK>, V0_0<NK, EK>>::downcast(e.get_weight()).unwrap(), g.get_node_downcast(e.get_outer()).unwrap()))\n");
    a.push_str(&rust_result_tail("E"));
    a.push_str(&rust_head("get_b_via_e_out", result_b));
    a.push_str("           .get_outgoing_filter(self.get_id(), |e| matches!(e.get_type(), EdgeType::E))?\n");
    a.push_str("           .map(|e| (Downcast::<_, _, &'a E<EK>, V0_0<NK, EK>>::downcast(e.get_weight()).unwrap(), g.get_node_downcast(e.get_outer()).unwrap()))\n");
    a.push_str(&rust_result_tail("E"));
    a.push_str("}\n");
    assert_eq!(g.get(&s("nodes/a.rs")), Some(Some(a)));

    let iter_a = "SchemaResult<impl Iterator<Item = (E, &'a A<NK>)> + 'a, NK, EK, V0_0<NK, EK>>";
    let mut b = String::new();
    b.push_str("\n#[allow(unused)]\nimpl<NK> B<NK> {\n");
    b.push_str(&rust_head("get_a_inc", iter_a));
    b.push_str("           .get_incoming_filter(self.get_id(), |e| matches!(e.get_type(), EdgeType::E))?\n");
    b.push_str("           .filter_map(|e| Some((e.get_weight(), g.get_node_downcast(e.get_outer()).ok()?)))\n");
    b.push_str("           .map(|(e, n)| (Downcast::<_, _, &'a E<EK>, V0_0<NK, EK>>::downcast(e).unwrap(), n))\n");
    b.push_str("       )\n   }\n");
    b.push_str(&rust_head("get_e_inc", iter_a));
    b.push_str("           .get_incoming_filter(self.get_id(), |e| matches!(e.get_type(), EdgeType::E))?\n");
    b.push_str("           .map(|e| (Downcast::<_, _, &'a E<EK>, V0_0<NK, EK>>::downcast(e.get_weight()).unwrap(), g.get_node_downcast(e.get_outer()).unwrap()))\n");
    b.push_str("       )\n   }\n");
    b.push_str(&rust_head("get_a_via_e_inc", iter_a));
    b.push_str("           .get_incoming_filter(self.get_id(), |e| matches!(e.get_type(), EdgeType::E))?\n");
    b.push_str("           .map(|e| (Downcast::<_, _, &'a E<EK>, V0_0<NK, EK>>::downcast(e.get_weight()).unwrap(), g.get_node_downcast(e.get_outer()).unwrap()))\n");
    b.push_str("       )\n   }\n");
    b.push_str("}\n");
    assert_eq!(g.get(&s("nodes/b.rs")), Some(Some(b)));
}

#[test]
fn rust_getters_group_edges_by_target_and_honour_renames() {
    // Two edge types from A to B, and a renamed edge from A to C.
    let mut renamed = endpoint("A", "C", Some((LowerBound::Zero, 1)), None);
    renamed.attributes.key_values.push(KeyValue { key: s("rename_out"), value: s("BestFriend") });
    let schema = Schema {
        version: s("V1.2"),
        content: vec![
            node("B"),
            node("A"),
            node("C"),
            edge("Likes", vec![endpoint("A", "B", Some((LowerBound::Zero, 1)), None)]),
            edge("Knows", vec![endpoint("A", "B", None, None), renamed]),
        ],
        hash: 2,
    };
    let mut g = GeneratedCode::new();
    write_edge_endpoints(&schema, &mut g, "n");
    let a = g.get(&s("n/a.rs")).unwrap().unwrap();
    // Getters by node come in the order of the node names, then by edge, then by endpoint;
    // the second endpoint from A to B gets no getter of its own.
    let order = [
        "pub fn get_b_out<'a, EK>",
        "pub fn get_c_out<'a, EK>",
        "pub fn get_likes_out<'a, EK>",
        "pub fn get_knows_out<'a, EK>",
        "pub fn get_b_via_likes_out<'a, EK>",
        "pub fn best_friend<'a, EK>",
    ];
    let mut at = 0;
    for name in order.iter() {
        let found = a[at..].find(name).expect(name);
        at += found + name.len();
    }
    // The getter of the B nodes reaches them through two edge types: no downcast to one of them.
    assert!(!a.contains("get_b_via_knows_out"));
    assert!(a.contains("-> SchemaResult<impl Iterator<Item = (Edge, &'a B<NK>)> + 'a, NK, EK, V1_2<NK, EK>>"));
    assert!(a.contains("|e| matches!(e.get_type(), EdgeType::Likes | EdgeType::Knows))?"));
    // The Knows edges reach B and C.
    assert!(a.contains("pub fn get_knows_out<'a, EK>(&'a self, g: &'a TypedGraph<NK, EK, V1_2<NK, EK>>) -> SchemaResult<impl Iterator<Item = (Knows, Either2<&'a B<NK>, &'a C<NK>>)> + 'a, NK, EK, V1_2<NK, EK>>"));
    // The renamed endpoint getter is an Option.
    assert!(a.contains("pub fn best_friend<'a, EK>(&'a self, g: &'a TypedGraph<NK, EK, V1_2<NK, EK>>) -> SchemaResult<Option<(Knows, &'a C<NK>)>, NK, EK, V1_2<NK, EK>>"));
    assert_eq!(g.len(), 3);
}

fn py_result_tail(name: &str) -> String {
    let mut t = String::new();
    t.push_str("        nodes = next(nodes, None)\n");
    t.push_str("        if nodes is None:\n");
    t.push_str(&format!(
        "            raise RecievedNoneValue(f'{{self.get_id()}}({{self.get_type()}})', '{name}')\n"
    ));
    t.push_str("        return nodes\n");
    t
}

#[test]
fn python_getters_for_a_single_edge() {
    let schema = one_edge_schema();
    let mut g = GeneratedCode::new();
    write_edge_endpoints_py(&schema, &mut g, "nodes");
    let ret = "Tuple['Edge.E', 'Node.B']";
    let mut a = String::new();
    a.push_str(&format!("\n    def get_b_out(self, g: 'V0_0Graph') -> {ret}:\n"));
    a.push_str("        edges = g.get_outgoing_filter(self.get_id(), lambda e: e.get_type() in [EdgeType.E])\n");
    a.push_str("        nodes = map(lambda e: (e.weight, g.get_node(e.get_outer())), edges)\n");
    a.push_str("        nodes = filter(lambda ne: ne[1].get_type() == NodeType.B, nodes)\n");
    a.push_str(&py_result_tail("E"));
    a.push_str(&format!("\n    def get_e_out(self, g: 'V0_0Graph') -> {ret}:\n"));
    a.push_str("        edges = g.get_outgoing_filter(self.get_id(), lambda e: e.get_type() == EdgeType.E)\n");
    a.push_str("        nodes = map(lambda e: (e.weight, g.get_node(e.get_outer())), edges)\n");
    a.push_str(&py_result_tail("get_e_out"));
    a.push_str(&format!("\n    def get_b_via_e_out(self, g: 'V0_0Graph') -> {ret}:\n"));
    a.push_str("        edges = g.get_outgoing_filter(self.get_id(), lambda e: e.get_type() == EdgeType.E)\n");
    a.push_str("        nodes = map(lambda e: (e.weight, g.get_node(e.get_outer())), edges)\n");
    a.push_str("        nodes = filter(lambda ne: ne[1].get_type() == NodeType.B, nodes)\n");
    a.push_str(&py_result_tail("E"));
    assert_eq!(g.get(&s("nodes/a.py")), Some(Some(a)));

    let b = g.get(&s("nodes/b.py")).unwrap().unwrap();
    assert!(b.starts_with("\n    def get_a_inc(self, g: 'V0_0Graph') -> Iterator[Tuple['Edge.E', 'Node.A']]:\n"));
    assert!(!b.contains("next(nodes, None)"));
}

#[test]
fn python_getters_become_optional_with_several_endpoints() {
    // Two endpoints from A of the same edge type, each to exactly one node.
    let schema = Schema {
        version: s("V0.0"),
        content: vec![
            node("A"),
            node("B"),
            node("C"),
            edge(
                "E",
                vec![
                    endpoint("A", "B", Some((LowerBound::One, 1)), None),
                    endpoint("A", "C", Some((LowerBound::One, 1)), None),
                ],
            ),
        ],
        hash: 1,
    };
    let mut g = GeneratedCode::new();
    write_edge_endpoints_py(&schema, &mut g, "nodes");
    let a = g.get(&s("nodes/a.py")).unwrap().unwrap();
    assert!(a.contains("    def get_b_out(self, g: 'V0_0Graph') -> Optional[Tuple['Edge.E', 'Node.B']]:\n"));
    assert!(a.contains("    def get_e_out(self, g: 'V0_0Graph') -> Tuple['Edge.E', 'Node.B | Node.C']:\n"));
}

#[test]
fn drawing_labels() {
    assert_eq!(node_label("Student"), s("<&lt;Student&gt;>"));
    let mut p = endpoint("A", "B", Some((LowerBound::One, 1)), Some((LowerBound::Zero, 12)));
    assert_eq!(head_label(&p), s("<0..12>"));
    assert_eq!(tail_label(&p), s("<1..1>"));
    p.attributes.key_values.push(KeyValue { key: s("rename_out"), value: s("friend") });
    assert_eq!(tail_label(&p), s("<1..1 - <FONT COLOR=\"GREY\">friend</FONT>>"));
    let q = endpoint("A", "B", None, None);
    assert_eq!(head_label(&q), s("<>"));
    let mut e = EdgeExp {
        name: s("Knows"),
        comments: Comments { doc: Vec::new(), other: Vec::new() },
        attributes: no_attributes(),
        fields: Vec::new(),
        endpoints: Vec::new(),
    };
    assert_eq!(edge_xlabel(&e), s("<&lt;Knows&gt;>"));
    e.attributes.key_values.push(KeyValue { key: s("rename_out"), value: s("knows") });
    e.attributes.key_values.push(KeyValue { key: s("rename_inc"), value: s("known_by") });
    assert_eq!(
        edge_xlabel(&e),
        s("<&lt;Knows&gt;<br/><FONT COLOR=\"GREY\">known_by</FONT><br/><FONT COLOR=\"GREY\">knows</FONT>>")
    );
}

#[test]
fn a_drawing_shows_the_nodes_and_one_arrow_per_endpoint() {
    let mut sc = one_edge_schema();
    sc.content.push(edge("F", vec![endpoint("B", "A", None, None), endpoint("A", "A", None, None)]));
    let items = schema_drawing(&sc);
    assert_eq!(items.len(), 5);
    match &items[0] {
        DrawItem::Node { id, label } => assert_eq!((id.as_str(), label.as_str()), ("A", "<&lt;A&gt;>")),
        other => panic!("{other:?}"),
    }
    match &items[1] {
        DrawItem::Node { id, .. } => assert_eq!(id, "B"),
        other => panic!("{other:?}"),
    }
    let p = endpoint("A", "B", Some((LowerBound::One, 1)), None);
    match &items[2] {
        DrawItem::Edge { source, target, xlabel, head, tail } => {
            assert_eq!((source.as_str(), target.as_str(), xlabel.as_str()), ("A", "B", "<&lt;E&gt;>"));
            assert_eq!(head, &head_label(&p));
            assert_eq!(tail, &tail_label(&p));
        }
        other => panic!("{other:?}"),
    }
    match (&items[3], &items[4]) {
        (DrawItem::Edge { source: s1, target: t1, xlabel: x1, .. }, DrawItem::Edge { source: s2, target: t2, .. }) => {
            assert_eq!((s1.as_str(), t1.as_str(), x1.as_str()), ("B", "A", "<&lt;F&gt;>"));
            assert_eq!((s2.as_str(), t2.as_str()), ("A", "A"));
        }
        other => panic!("{other:?}"),
    }
}
