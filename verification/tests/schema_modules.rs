use typed_graph_cli::generated_code::GeneratedCode;
use typed_graph_cli::python_schema::{py_schema_impl_content, write_init as python_write_init};
use typed_graph_cli::rust_schema::{schema_filename, schema_folders, write_mod};
use typed_graph_cli::schema::{
    Attributes, Comments, EdgeExp, EndPoint, ImportExp, NodeExp, QuantityBound, Quantifier, Schema, SchemaStm,
};

fn s(x: &str) -> String {
    x.to_string()
}

fn no_attributes() -> Attributes {
    Attributes {
        skipped: false,
        default: false,
        untagged: false,
        aliases: Vec::new(),
        functions: Vec::new(),
        key_values: Vec::new(),
    }
}

fn no_comments() -> Comments {
    Comments { doc: Vec::new(), other: Vec::new() }
}

fn schema() -> Schema {
    Schema {
        version: s("V1.0"),
        content: vec![
            SchemaStm::Node(NodeExp {
                name: s("UserAccount"),
                comments: no_comments(),
                attributes: no_attributes(),
                fields: Vec::new(),
            }),
            SchemaStm::Edge(EdgeExp {
                name: s("Owns"),
                comments: no_comments(),
                attributes: no_attributes(),
                fields: Vec::new(),
                endpoints: Vec::new(),
            }),
            SchemaStm::Import(ImportExp { name: s("Extern"), comments: no_comments() }),
        ],
        hash: 0,
    }
}

#[test]
fn schema_folders_are_named_by_version() {
    let sc = schema();
    assert_eq!(schema_filename(&sc), "v1_0");
    let f = schema_folders(&sc, "out");
    assert_eq!(f.schema, "out/v1_0");
    assert_eq!(f.nodes, "out/v1_0/nodes");
    assert_eq!(f.structs, "out/v1_0/structs");
    assert_eq!(f.edges, "out/v1_0/edges");
    assert_eq!(f.types, "out/v1_0/types");
}

#[test]
fn module_files_list_each_statement() {
    let sc = schema();
    let f = schema_folders(&sc, "out/");
    let mut g = GeneratedCode::new();
    write_mod(&sc.content, &mut g, &f);
    assert_eq!(
        g.get(&s("out/v1_0/nodes/mod.rs")),
        Some(Some(s("mod user_account;\n#[allow(unused)]\npub use user_account::*;\n")))
    );
    assert_eq!(g.get(&s("out/v1_0/edges/mod.rs")), Some(Some(s("mod owns;\n#[allow(unused)]\npub use owns::*;\n"))));
    assert_eq!(g.get(&s("out/v1_0/structs/mod.rs")), Some(Some(s(""))));
    assert_eq!(g.get(&s("out/v1_0/types/mod.rs")), Some(Some(s(""))));
    assert_eq!(g.get(&s("out/v1_0/imports.rs")), Some(None));
    let root = g.get(&s("out/v1_0/mod.rs")).unwrap().unwrap();
    assert!(root.starts_with("mod node;\npub mod structs;\nmod edge;\n"));
    assert!(root.ends_with("#[allow(unused)]\npub use imports::*;\n#[allow(unused)]\npub use super::imports::*;\n"));
    assert_eq!(g.len(), 6);
}

fn endpoint(source: &str, target: &str, quantity: QuantityBound) -> EndPoint {
    let q = |quantity| Quantifier { bounds: None, quantity };
    EndPoint {
        source: s(source),
        target: s(target),
        quantity: q(quantity),
        incoming_quantity: q(QuantityBound::Unbounded),
        outgoing_quantity: q(QuantityBound::Unbounded),
        attributes: no_attributes(),
    }
}

#[test]
fn python_schema_lists_endpoint_limits() {
    let sc = Schema {
        version: s("V1.0"),
        content: vec![SchemaStm::Edge(EdgeExp {
            name: s("Owns"),
            comments: no_comments(),
            attributes: no_attributes(),
            fields: Vec::new(),
            endpoints: vec![
                endpoint("A", "B", QuantityBound::Included(2)),
                endpoint("B", "B", QuantityBound::Excluded(5)),
                endpoint("A", "A", QuantityBound::Unbounded),
            ],
        })],
        hash: 0,
    };
    let expected = [
        "from typing import TypeVar",
        "from typed_graph import SchemaExt, TypeStatus",
        "from .node import Node",
        "from .edge import Edge",
        "from .edge_type import EdgeType",
        "from .node_type import NodeType",
        "from typing import ClassVar, Dict, Tuple",
        "",
        "NK = TypeVar('NK')",
        "EK = TypeVar('EK')",
        "class V1_0(SchemaExt[Node, Edge, NK, EK, NodeType, EdgeType]):",
        "    endpoint_meta: ClassVar[Dict[Tuple[EdgeType, NodeType, NodeType], int]] = {",
        "        (EdgeType.Owns, NodeType.A, NodeType.B): 3,",
        "        (EdgeType.Owns, NodeType.B, NodeType.B): 5,",
        "        (EdgeType.Owns, NodeType.A, NodeType.A): None,",
        "    }",
        "",
        "    def name(self) -> str:",
        "        return 'V1.0'",
        "    ",
        "    def allow_node(self, node_type: NodeType) -> TypeStatus | bool:",
        "        return isinstance(node_type, NodeType) and node_type in NodeType.__members__.keys()",
        "    ",
        "    def allow_edge(self, quantity: int, edge_type: EdgeType, source_type: NodeType, target_type: NodeType) -> TypeStatus | bool:",
        "        source_allowed = isinstance(source_type, NodeType) and source_type in NodeType.__members__.keys()",
        "        target_allowed = isinstance(target_type, NodeType) and target_type in NodeType.__members__.keys()",
        "        edge_allowed = isinstance(edge_type, EdgeType) and edge_type in EdgeType.__members__.keys()",
        "        edge_meta_key = (edge_type, source_type, target_type)",
        "        endpoint_allowed = edge_meta_key in V1_0.endpoint_meta",
        "        ",
        "        if not source_allowed or not target_allowed or not edge_allowed or not endpoint_allowed:",
        "            return TypeStatus.InvalidType",
        "        ",
        "        allowed_quantity = V1_0.endpoint_meta[(edge_type, source_type, target_type)]",
        "        if allowed_quantity is not None and quantity >= allowed_quantity:",
        "            return TypeStatus.ToMany",
        "        ",
        "        return TypeStatus.Ok",
        "        ",
    ];
    let mut text = String::new();
    for l in expected {
        text.push_str(l);
        text.push('\n');
    }
    let actual = py_schema_impl_content(&sc);
    for (i, (a, x)) in actual.split('\n').zip(text.split('\n')).enumerate() {
        assert_eq!(a, x, "line {i}");
    }
    assert_eq!(actual, text);
}

#[test]
fn python_package_files_list_each_statement() {
    let sc = schema();
    let f = schema_folders(&sc, "py");
    let mut g = GeneratedCode::new();
    python_write_init(&sc, &mut g, &f);
    assert_eq!(
        g.get(&s("py/v1_0/nodes/__init__.py")),
        Some(Some(s("from .user_account import UserAccount\n__main__ = [\n    'UserAccount',\n]\n")))
    );
    assert_eq!(g.get(&s("py/v1_0/edges/__init__.py")), Some(Some(s("from .owns import Owns\n__main__ = [\n    'Owns',\n]\n"))));
    assert_eq!(g.get(&s("py/v1_0/structs/__init__.py")), Some(Some(s("__main__ = [\n]\n"))));
    assert_eq!(g.get(&s("py/v1_0/types/__init__.py")), Some(Some(s("__main__ = [\n]\n"))));
    let init = [
        "from .edge_type import EdgeType",
        "from .node_type import NodeType",
        "from .edge import Edge",
        "from .node import Node",
        "from .schema import V1_0",
        "from .types import *",
        "from .edges import *",
        "from .nodes import *",
        "from .structs import *",
        "",
        "from .. import imports",
        "from typed_graph import TypedGraph",
        "V1_0Graph = TypedGraph[Node, Edge, imports.NodeId, imports.EdgeId, NodeType, EdgeType, V1_0]",
        "",
        "__main__ = [",
        "    'EdgeType',",
        "    'NodeType',",
        "    'Edge',",
        "    'Node',",
        "    'V1_0',",
        "]",
    ];
    let mut text = String::new();
    for l in init {
        text.push_str(l);
        text.push('\n');
    }
    assert_eq!(g.get(&s("py/v1_0/__init__.py")), Some(Some(text)));
    assert_eq!(g.get(&s("py/v1_0/imports.py")), Some(None));
    assert_eq!(g.len(), 6);
}
