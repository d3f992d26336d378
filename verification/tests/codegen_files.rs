use typed_graph_cli::python_items::{py_enum_content, py_node_content, py_struct_content};
use typed_graph_cli::python_schema::py_edge_content;
use typed_graph_cli::rust_changeset::{create_generics, write_edge_from, write_migrate_schema, write_node_from};
use typed_graph_cli::rust_items::rust_enum_content;
use typed_graph_cli::rust_node::{rust_node_content, rust_struct_content};
use typed_graph_cli::rust_project::{any_graph_content, any_schema_content};
use typed_graph_cli::rust_schema::schema_impl_content;
use typed_graph_cli::rust_schema_edges::{edge_type_rs_content, edges_rs_content, rust_edge_content};
use typed_graph_cli::rust_schema_nodes::nodes_rs_content;
use typed_graph_cli::schema::{
    AttributeFunction, Attributes, ChangeKind, ChangeSet, Comments, EdgeExp, EnumExp, EnumVarient, FieldValue,
    NodeExp, SchemaStm, SingleChange, StructExp, Visibility,
};
use typed_graph_cli::edge_representation::LowerBound;
use typed_graph_cli::schema::{EndPoint, QuantityBound, Quantifier, Schema};
use typed_graph_cli::types::Types;

fn s(x: &str) -> String {
    x.to_string()
}

fn no_attributes() -> Attributes {
    Attributes {
        skipped: false,
        default: false,
        untagged: false,
        aliases: Vec::new(),
        functions: Vec::new(),
        key_values: Vec::new(),
    }
}

fn doc(lines: &[&str]) -> Comments {
    Comments { doc: lines.iter().map(|l| s(l)).collect(), other: vec![s("not documentation")] }
}

fn field(name: &str, ty: Types, visibility: Visibility) -> FieldValue {
    FieldValue { name: s(name), field_type: ty, visibility, attributes: no_attributes(), comments: doc(&[]) }
}

/// The lines joined, each ended by a line break.
fn lines(ls: &[&str]) -> String {
    let mut t = String::new();
    for l in ls {
        t.push_str(l);
        t.push('\n');
    }
    t
}

#[test]
fn rust_enum_with_every_kind_of_variant() {
    let mut aliased = no_attributes();
    aliased.aliases.push(s("b"));
    let e = EnumExp {
        name: s("Grades"),
        comments: doc(&["The grades"]),
        attributes: no_attributes(),
        generics: vec![s("T")],
        varients: vec![
            EnumVarient::Unit { name: s("A"), comments: doc(&["best"]), attributes: no_attributes() },
            EnumVarient::Opaque {
                name: s("B"),
                comments: doc(&[]),
                attributes: aliased,
                ty: Types::Optional { inner: Box::new(Types::Reference { inner: s("T"), generics: Vec::new() }) },
            },
            EnumVarient::Struct {
                name: s("C"),
                comments: doc(&[]),
                attributes: no_attributes(),
                fields: vec![field("x", Types::U8, Visibility::Public)],
            },
        ],
    };
    let expected = lines(&[
        "#[allow(unused_imports)]",
        "use super::super::*;",
        "#[allow(unused_imports)]",
        "use serde::{Serialize, Deserialize, self};",
        "#[allow(unused_imports)]",
        "use indexmap::IndexMap;",
        "",
        "/// The grades",
        "#[derive(Clone, Debug)]",
        "pub enum Grades<T> {",
        "    /// best",
        "    A,",
        "    #[serde(alias=\"b\")]",
        "    B (Option<T>),",
        "    C {",
        "        x: u8,",
        "    },",
        "}",
        "",
        "impl<T> std::fmt::Display for Grades<T> {",
        "    fn fmt(&self, f: &mut std::fmt::Formatter<'_>) -> std::fmt::Result {",
        "        match self {",
        "            Grades::A => write!(f, \"A\"),",
        "            Grades::B(_) => write!(f, \"B\"),",
        "            Grades::C{ .. } => write!(f, \"C\"),",
        "        }",
        "    }",
        "}",
    ]);
    assert_eq!(rust_enum_content(&e), expected);
}

#[test]
fn rust_enum_of_units_derives_more() {
    let mut attributes = no_attributes();
    attributes.untagged = true;
    attributes.functions.push(AttributeFunction { name: s("derive"), values: vec![s("Default")] });
    let e = EnumExp {
        name: s("Color"),
        comments: doc(&[]),
        attributes,
        generics: Vec::new(),
        varients: vec![EnumVarient::Unit { name: s("Red"), comments: doc(&[]), attributes: no_attributes() }],
    };
    let text = rust_enum_content(&e);
    assert!(text.contains(
        "\n#[derive(Clone, Debug, Copy, Serialize, Deserialize, PartialEq, Eq, PartialOrd, Ord, Hash, Default)]\n#[serde(untagged)]\npub enum Color {\n    Red,\n}\n"
    ));
    assert!(text.ends_with("            Color::Red => write!(f, \"Red\"),\n        }\n    }\n}\n"));
}

#[test]
fn rust_node_with_a_name() {
    let n = NodeExp {
        name: s("Student"),
        comments: doc(&["A student"]),
        attributes: no_attributes(),
        fields: vec![
            field("name", Types::Str, Visibility::Public),
            FieldValue {
                name: s("age"),
                field_type: Types::Usize,
                visibility: Visibility::Local,
                attributes: no_attributes(),
                comments: doc(&["in years"]),
            },
        ],
    };
    let expected = lines(&[
        "#[allow(unused_imports)]",
        "use super::super::super::imports::*;",
        "#[allow(unused_imports)]",
        "use super::super::imports::*;",
        "#[allow(unused_imports)]",
        "use super::super::*;",
        "#[allow(unused_imports)]",
        "use std::collections::HashMap;",
        "use typed_graph::*;",
        "use serde::{Serialize, Deserialize};",
        "",
        "/// A student",
        "#[derive(Clone, Debug, Serialize, Deserialize)]",
        "pub struct Student<NK>   {",
        "    pub(crate) id: NK,",
        "    pub name: String,",
        "   /// in years",
        "    pub(crate) age: usize",
        "}",
        "",
        "impl<NK> Student<NK> {",
        "    pub fn new(",
        "       id: NK,",
        "       name: String,",
        "       age: usize",
        "   ) -> Self {",
        "        Self {",
        "           id,",
        "           name,",
        "           age",
        "        }",
        "    }",
        "}",
        "",
        "impl<NK> Typed for Student<NK> {",
        "    type Type = NodeType;",
        "    fn get_type(&self) -> NodeType {",
        "       NodeType::Student",
        "    }",
        "}",
        "",
        "impl<NK: Key> Id<NK> for Student<NK> {",
        "    fn get_id(&self) -> NK {",
        "        self.id",
        "    }",
        "",
        "    fn set_id(&mut self, id: NK) {",
        "        self.id = id",
        "    }",
        "}",
        "",
        "impl<NK> Name for Student<NK> {",
        "    type Name = String;",
        "    fn get_name(&self) -> Option<&Self::Name> {",
        "       Some(&self.name)",
        "    }",
        "}",
        "",
        "impl<EK: std::fmt::Display + Key> std::fmt::Display for Student<EK> {",
        "    fn fmt(&self, f: &mut std::fmt::Formatter<'_>) -> std::fmt::Result {",
        "        write!(f, \"{}({})\", self.get_type(), self.get_id())",
        "    }",
        "}",
    ]);
    assert_eq!(rust_node_content(&n), expected);
}

#[test]
fn python_node_with_documented_and_skipped_fields() {
    let mut name = field("name", Types::Str, Visibility::Public);
    name.comments = doc(&["Full name"]);
    let mut age = field("age", Types::Optional { inner: Box::new(Types::U32) }, Visibility::Public);
    age.attributes.skipped = true;
    age.attributes.aliases.push(s("years"));
    let n = NodeExp {
        name: s("User"),
        comments: doc(&["A person"]),
        attributes: no_attributes(),
        fields: vec![name, age],
    };
    let expected = lines(&[
        "from ..node_type import NodeType",
        "from ..edge_type import EdgeType",
        "from ..structs import *",
        "from ..types import *",
        "from ...imports import *",
        "from ..imports import *",
        "from typed_graph import NodeExt, RecievedNoneValue",
        "from typing import Optional, List, Set, Dict, Iterator, Tuple, ClassVar, TYPE_CHECKING",
        "from pydantic import Field, AliasChoices",
        "",
        "if TYPE_CHECKING:",
        "    from .. import *",
        "    from ..edges import *",
        "    from ..nodes import *",
        "",
        "class User(NodeExt[NodeId, NodeType]):",
        "    \"\"\"",
        "    A person",
        "    \"\"\"",
        "    id: NodeId",
        "    name: str",
        "    \"\"\"",
        "    Full name",
        "    \"\"\"",
        "    age: Optional[int] = Field(exclude=True, default_factory=lambda:None, validation_alias=AliasChoices('age', ''years''))",
        "",
        "    def get_id(self) -> NodeId:",
        "        return self.id",
        "",
        "    def set_id(self, id: NodeId) -> None:",
        "        self.id = id",
        "",
        "    def get_type(self) -> NodeType:",
        "        return NodeType.User",
    ]);
    assert_eq!(py_node_content(&n), expected);
}

fn changeset_with(changes: Vec<SingleChange>) -> ChangeSet {
    ChangeSet {
        old_version: s("V1"),
        new_version: s("V2"),
        old_hash: 1,
        new_hash: 2,
        id: 7,
        handler: None,
        changes,
    }
}

#[test]
fn node_conversion_defaults_added_fields() {
    let n = NodeExp {
        name: s("User"),
        comments: doc(&[]),
        attributes: no_attributes(),
        fields: vec![field("name", Types::Str, Visibility::Public), field("age", Types::U32, Visibility::Public)],
    };
    let cs = changeset_with(vec![SingleChange { path: vec![s("User"), s("age")], kind: ChangeKind::AddedField }]);
    let expected = lines(&[
        "",
        "impl<NK> From<OldUser<NK>> for User<NK> {",
        "    fn from(other: OldUser<NK>) -> Self {",
        "       User {",
        "           id: other.id.into(),",
        "           name: other.name.into(),",
        "           age: Default::default()",
        "       }",
        "    }",
        "}",
    ]);
    assert_eq!(write_node_from(&n, &cs, &s("OldUser")), expected);
}

#[test]
fn generics_of_the_two_versions() {
    let letters = vec![s("A"), s("B")];
    let unchanged = changeset_with(Vec::new());
    assert_eq!(create_generics(&s("Pair"), &letters, &unchanged), (s("<ANew, BNew>"), s("<AOld, BOld>")));
    let edited = changeset_with(vec![SingleChange {
        path: vec![s("Pair")],
        kind: ChangeKind::EditedGenerics { old_generics: vec![s("A")] },
    }]);
    assert_eq!(create_generics(&s("Pair"), &letters, &edited), (s("<ANew, BNew>"), s("<AOld>")));
    assert_eq!(create_generics(&s("Plain"), &Vec::new(), &unchanged), (s(""), s("")));
}

const NODES_HEADER: [&str; 7] = [
    "#[allow(unused_imports)]",
    "use super::super::imports::*;",
    "use super::*;",
    "use std::fmt::Debug;",
    "use typed_graph::*;",
    "use serde::{Serialize, Deserialize};",
    "",
];

const NODE_DISPLAY: [&str; 6] = [
    "",
    "impl<NK: std::fmt::Display + Key> std::fmt::Display for Node<NK> {",
    "    fn fmt(&self, f: &mut std::fmt::Formatter<'_>) -> std::fmt::Result {",
    r#"        write!(f, "{}({})", self.get_type(), self.get_id())"#,
    "    }",
    "}",
];

#[test]
fn node_rs_without_nodes() {
    let mut expected = lines(&NODES_HEADER);
    expected.push_str(&lines(&[
        "#[derive(Clone, Debug, Serialize, Deserialize)]",
        "pub struct Node<NK> {",
        "    id: NK",
        "}",
        "",
        "impl<NK: Key> NodeExt<NK> for Node<NK>{}",
        "",
        "impl<NK> Typed for Node<NK> {",
        "    type Type = NodeType;",
        "    fn get_type(&self) -> NodeType {",
        "        NodeType",
        "    }",
        "}",
        "",
        "impl<NK: Key> Id<NK> for Node<NK> {",
        "    fn get_id(&self) -> NK {",
        "        self.id",
        "    }",
        "",
        "    fn set_id(&mut self, id: NK) {",
        "        self.id = id;",
        "    }",
        "}",
    ]));
    expected.push_str(&lines(&NODE_DISPLAY));
    assert_eq!(nodes_rs_content(&Vec::new()), expected);
}

#[test]
fn node_rs_with_one_named_node() {
    let a = SchemaStm::Node(NodeExp {
        name: s("A"),
        comments: doc(&[]),
        attributes: no_attributes(),
        fields: vec![field("name", Types::Str, Visibility::Public)],
    });
    let mut expected = lines(&NODES_HEADER);
    expected.push_str(&lines(&[
        "#[derive(Clone, Debug, Serialize, Deserialize)]",
        "pub enum Node<NK> {",
        "    A(A<NK>),",
        "}",
        "",
        "impl<NK: Key> NodeExt<NK> for Node<NK>{}",
        "",
        "impl<NK> Typed for Node<NK> {",
        "    type Type = NodeType;",
        "    fn get_type(&self) -> NodeType {",
        "        match self {",
        "            Node::A(_) => NodeType::A,",
        "        }",
        "    }",
        "}",
        "",
        "impl<NK: Key> Id<NK> for Node<NK> {",
        "    fn get_id(&self) -> NK {",
        "        match self {",
        "            Node::A(e) => e.get_id(),",
        "        }",
        "    }",
        "",
        "    fn set_id(&mut self, id: NK) {",
        "        match self {",
        "            Node::A(e) => e.set_id(id),",
        "        }",
        "    }",
        "}",
        "",
        "impl<NK> Name for Node<NK> {",
        "    type Name = String;",
        "    fn get_name(&self) -> Option<&Self::Name> {",
        "       match self {",
        "        Node::A(e) => e.get_name(),",
        "       }",
        "    }",
        "}",
        "",
        "impl<NK> From<A<NK>> for Node<NK> {",
        "    fn from(other: A<NK>) -> Self {",
        "        Self::A(other)",
        "    }",
        "}",
        "",
        "impl<'a, NK, EK, S> Downcast<'a, NK, EK, &'a A<NK>, S> for Node<NK>",
        "where",
        "    NK: Key,",
        "    EK: Key,",
        "    S: SchemaExt<NK, EK, N = Node<NK>>",
        "{",
        "    fn downcast(&'a self) -> SchemaResult<&'a A<NK>, NK, EK, S> {",
        "        match self {",
        "            Node::A(n) => Ok(n),",
        "            #[allow(unreachable_patterns)]",
        r#"            n => Err(TypedError::DownCastFailed("A".to_string(), n.get_type().to_string()))"#,
        "        }",
        "    }",
        "}",
        "",
        "impl<'a, NK, EK, S> DowncastMut<'a, NK, EK, &'a mut A<NK>, S> for Node<NK>",
        "where",
        "    NK: Key,",
        "    EK: Key,",
        "    S: SchemaExt<NK, EK, N = Node<NK>>",
        "{",
        "    fn downcast_mut(&'a mut self) -> SchemaResult<&'a mut A<NK>, NK, EK, S> {",
        "        match self {",
        "            Node::A(n) => Ok(n),",
        "            #[allow(unreachable_patterns)]",
        r#"            n => Err(TypedError::DownCastFailed("A".to_string(), n.get_type().to_string()))"#,
        "        }",
        "    }",
        "}",
    ]));
    expected.push_str(&lines(&NODE_DISPLAY));
    assert_eq!(nodes_rs_content(&vec![a]), expected);
}

#[test]
fn edge_type_rs_with_one_edge() {
    let owns = SchemaStm::Edge(EdgeExp {
        name: s("Owns"),
        comments: doc(&[]),
        attributes: no_attributes(),
        fields: Vec::new(),
        endpoints: Vec::new(),
    });
    let expected = lines(&[
        "use super::*;",
        "use serde::{Serialize, Deserialize};",
        "use typed_graph::GenericTypedError;",
        "use std::str::FromStr;",
        "",
        "#[derive(Clone, Copy, Debug, PartialEq, Hash, Eq, PartialOrd, Ord, Serialize, Deserialize)]",
        "pub enum EdgeType {",
        "    Owns,",
        "}",
        "impl EdgeType {",
        "    pub fn all() -> &'static [EdgeType] {",
        "        &[",
        "            EdgeType::Owns,",
        "            ",
        "        ]",
        "    }",
        "}",
        "",
        "impl<EK> PartialEq<EdgeType> for Edge<EK> {",
        "    fn eq(&self, _other: &EdgeType) -> bool {",
        "        match (_other, self) {",
        "           (EdgeType::Owns, Edge::Owns(_)) => true,",
        "           #[allow(unreachable_patterns)]",
        "           _ => false",
        "        }",
        "    }",
        "}",
        "",
        "impl<EK> PartialEq<Edge<EK>> for EdgeType {",
        "    fn eq(&self, other: &Edge<EK>) -> bool {",
        "        other.eq(self)",
        "    }",
        "}",
        "",
        "impl<EK> PartialEq<EdgeType> for Owns<EK> {",
        "    fn eq(&self, ty: &EdgeType) -> bool {",
        "        matches!(ty, EdgeType::Owns)",
        "    }",
        "}",
        "",
        "impl<EK> PartialEq<Owns<EK>> for EdgeType {",
        "    fn eq(&self, other: &Owns<EK>) -> bool {",
        "        other.eq(self)",
        "    }",
        "}",
        "",
        "impl std::fmt::Display for EdgeType {",
        "    fn fmt(&self, f: &mut std::fmt::Formatter<'_>) -> std::fmt::Result {",
        "        match self {",
        r#"            EdgeType::Owns => write!(f, "Owns"),"#,
        "        }",
        "    }",
        "}",
        "",
        "impl FromStr for EdgeType {",
        "    type Err = GenericTypedError<String, String>;",
        "",
        "    fn from_str(value: &str) -> Result<Self, Self::Err> {",
        "        match value {",
        r#"            "Owns" => Ok(EdgeType::Owns),"#,
        "            _ => Err(GenericTypedError::UnrecognizedEdgeType(value.to_string(), EdgeType::all().into_iter().map(ToString::to_string).collect()))",
        "        }",
        "    }",
        "}",
    ]);
    assert_eq!(edge_type_rs_content(&vec![owns]), expected);
}

#[test]
fn any_graph_for_one_version() {
    let mut expected = lines(&[
        "use serde::de::{DeserializeOwned, Error};",
        "use serde::{Deserialize, Serialize};",
        "use serde_json::{Map, Value};",
        "use super::*;",
        "use std::convert::identity;",
        "use typed_graph::any_graph::AnyWeight;",
        "use typed_graph::{DisAllowedEdge, DisAllowedNode, EdgeExt, Id, Key, NodeExt, SchemaExt, Typed, TypedGraph, TypedError, DirectMigration};",
        "",
        "use crate::AnySchema;",
        "",
        "/// Generic container for any graph generated by typed_graph_cli  ",
        "/// The container does not check for ",
        "pub type AnyGraph<NK, EK> = TypedGraph<NK, EK, AnySchema<NK, EK>>;",
        "",
        "impl<NK: Key, EK: Key> SchemaExt<NK, EK> for AnySchema<NK, EK> {",
        "    type N = AnyWeight<NK>;",
        "    type E = AnyWeight<EK>;",
        "",
        "    fn name(&self) -> String {",
        "        self.to_string()",
        "    }",
        "",
        "    fn allow_edge(",
        "        &self,",
        "        outgoing_edge_count: usize,",
        "        incoming_edge_count: usize,",
        "        edge_ty: <Self::E as typed_graph::Typed>::Type,",
        "        source: <Self::N as typed_graph::Typed>::Type,",
        "        target: <Self::N as typed_graph::Typed>::Type,",
        "    ) -> Result<(), typed_graph::DisAllowedEdge> {",
        "        match self {",
        "            AnySchema::V1_0(schema) => {",
        "                schema.allow_edge(",
        "                    outgoing_edge_count, ",
        "                    incoming_edge_count, ",
        "                    edge_ty.parse().map_err(|_| DisAllowedEdge::InvalidType)?, ",
        "                    source.parse().map_err(|_| DisAllowedEdge::InvalidType)?, ",
        "                    target.parse().map_err(|_| DisAllowedEdge::InvalidType)?",
        "                )?",
        "            },",
        "        }",
        "        Ok(())",
        "    }",
        "",
        "    fn allow_node(&self, node_ty: <Self::N as typed_graph::Typed>::Type) -> Result<(), typed_graph::DisAllowedNode> {",
        "        match self {",
    ]);
    expected.push_str(&lines(&[
        "            AnySchema::V1_0(schema) => {",
        "                schema.allow_node(",
        "                    node_ty.parse().map_err(|_| DisAllowedNode::InvalidType)?",
        "                )?",
        "            },",
        "        }",
        "        Ok(())",
        "    }",
        "}",
        "",
        "impl<NK, EK> DirectMigration<NK, EK, V1_0<NK, EK>>  for AnySchema<NK, EK>",
        "where ",
        "    NK: Key + DeserializeOwned + Serialize, ",
        "    EK: Key + DeserializeOwned + Serialize",
        "{",
        "    fn migrate(",
        "        g: typed_graph::TypedGraph<NK, EK, Self>,",
        "    ) -> typed_graph::GenericTypedResult<typed_graph::TypedGraph<NK, EK, V1_0<NK, EK>>, NK, EK> {",
        "        let new_schema = V1_0::default();",
        "        let new_schema_name = new_schema.to_string();",
        "        let old_schema_name = g.get_schema().to_string();",
        "        if new_schema_name != old_schema_name {",
        "            return Err(TypedError::InvalidSchemaName(new_schema_name, old_schema_name));",
        "        }",
        "",
        "        let new_g = g",
        "            .update_schema(",
        "                new_schema,",
        "                |_current_schema, _new_schema, node| Ok(Some(serde_json::from_value(serde_json::to_value(&node)?)?)),",
        "                |_current_schema, _new_schema, edge| Ok(Some(serde_json::from_value(serde_json::to_value(&edge)?)?)),",
        "            )",
        "            // filter_map returns an error for the new schema",
        "            // So we have to convert it into an error for the joined schema",
        "            .map_err(|e| e.map(identity, identity, |n| n.to_string(), |n| n.to_string()))?;",
        "",
        "        Ok(new_g)",
        "    }",
        "}",
        "",
        "impl<NK, EK> DirectMigration<NK, EK, AnySchema<NK, EK>>  for V1_0<NK, EK>",
        "where ",
        "    NK: Key + DeserializeOwned + Serialize, ",
        "    EK: Key + DeserializeOwned + Serialize",
        "{",
        "    fn migrate(",
        "        g: typed_graph::TypedGraph<NK, EK, Self>,",
        "    ) -> typed_graph::GenericTypedResult<typed_graph::TypedGraph<NK, EK, AnySchema<NK, EK>>, NK, EK> {",
        "        let new_schema = g.get_schema().clone().into();",
        "        let new_g = g",
        "            .update_schema(",
        "                new_schema,",
        "                |_current_schema, _new_schema, node| Ok(Some(serde_json::to_value(&node)?.try_into()?)),",
        "                |_current_schema, _new_schema, edge| Ok(Some(serde_json::to_value(&edge)?.try_into()?)),",
        "            )",
        "            // filter_map returns an error for the new schema",
        "            // So we have to convert it into an error for the joined schema",
        "            .map_err(|e| e.map(identity, identity, |n| n, |n| n))?;",
        "        Ok(new_g)",
        "    }",
        "}",
    ]));
    assert_eq!(any_graph_content(&vec![s("V1.0")]), expected);
}

fn quantity(bounds: Option<(LowerBound, u32)>) -> Quantifier {
    Quantifier { bounds, quantity: QuantityBound::Unbounded }
}

#[test]
fn schema_rs_checks_edge_bounds() {
    let owns = SchemaStm::Edge(EdgeExp {
        name: s("Owns"),
        comments: doc(&[]),
        attributes: no_attributes(),
        fields: Vec::new(),
        endpoints: vec![
            EndPoint {
                source: s("User"),
                target: s("Item"),
                quantity: quantity(None),
                incoming_quantity: quantity(Some((LowerBound::Zero, 1))),
                outgoing_quantity: quantity(Some((LowerBound::One, 4))),
                attributes: no_attributes(),
            },
            EndPoint {
                source: s("Item"),
                target: s("Item"),
                quantity: quantity(None),
                incoming_quantity: quantity(None),
                outgoing_quantity: quantity(None),
                attributes: no_attributes(),
            },
        ],
    });
    let schema = Schema { version: s("V1.1"), content: vec![owns], hash: 0 };
    let expected = lines(&[
        "use super::*;",
        "use std::fmt::Debug;",
        "use std::marker::PhantomData;",
        "use typed_graph::*;",
        "use serde::{Serialize, Deserialize};",
        "use typed_graph::GenericTypedError;",
        "use std::str::FromStr;",
        "",
        "#[allow(unused)]",
        "pub type V1_1Graph<NK, EK> = TypedGraph<NK, EK, V1_1<NK, EK>>;",
        "",
        r#"pub const V1_1_NAME: &'static str = "V1.1";"#,
        "",
        "#[derive(Clone, Debug, Serialize, Deserialize, PartialEq, Eq, Hash)]",
        r#"#[serde(bound = "NK: Clone, EK: Clone")]"#,
        r#"#[serde(try_from = "String")]"#,
        r#"#[serde(into = "String")]"#,
        "pub struct V1_1<NK, EK> {",
        "    ek: PhantomData<EK>,",
        "    nk: PhantomData<NK>,",
        "}",
        "",
        "impl<NK, EK> V1_1<NK, EK> {",
        "    pub const fn name() -> &'static str {",
        r#"        "V1.1""#,
        "    }",
        "",
        "    pub const fn parents() -> &'static [&'static str] {",
        "        &[",
        r#"            "V1.0","#,
        "        ]",
        "    }",
        "}",
        "",
        "impl<NK, EK> SchemaExt<NK, EK> for V1_1<NK, EK>",
        "where",
        "   NK: Key,",
        "   EK: Key",
        "{",
        "   type N = Node<NK>;",
        "   type E = Edge<EK>;",
        "",
        "    fn name(&self) -> String {",
        "        self.to_string()",
        "    }",
        "",
        "    fn allow_node(&self, _node_ty: NodeType) -> Result<(), DisAllowedNode> {",
        "        Ok(())",
        "    }",
        "",
        "    #[allow(unused_variables)]",
        "    fn allow_edge(&self, outgoing_edge_count: usize, incoming_edge_count: usize, edge_ty: EdgeType, source_ty: NodeType, target_ty: NodeType) -> Result<(), DisAllowedEdge> {",
        "        match (edge_ty, source_ty, target_ty) {",
        "            (EdgeType::Owns, NodeType::User, NodeType::Item) if incoming_edge_count > 1 => Err(DisAllowedEdge::ToManyIncoming),",
        "            (EdgeType::Owns, NodeType::User, NodeType::Item) if outgoing_edge_count > 4 => Err(DisAllowedEdge::ToManyOutgoing),",
        "            (EdgeType::Owns, NodeType::User, NodeType::Item) => Ok(()),",
        "            (EdgeType::Owns, NodeType::Item, NodeType::Item) => Ok(()),",
        "            #[allow(unreachable_patterns)]",
        "            _ => Err(DisAllowedEdge::InvalidType)",
        "        }",
        "    }",
        "}",
        "",
        "impl<NK, EK> Default for V1_1<NK, EK> {",
        "    fn default() -> Self {",
        "        V1_1 {",
        "            ek: PhantomData,",
        "            nk: PhantomData",
        "        }",
        "    }",
        "}",
        "",
        "impl<NK, EK> TryFrom<String> for V1_1<NK, EK> {",
        "    type Error = GenericTypedError<String, String>;",
        "",
        "    fn try_from(value: String) -> Result<Self, Self::Error> {",
        "        value.parse()",
        "    }",
        "}",
        "",
        "impl<NK, EK> FromStr for V1_1<NK, EK> {",
        "    type Err = GenericTypedError<String, String>;",
        "",
        "    fn from_str(value: &str) -> Result<Self, Self::Err> {",
        r#"        if value != "V1.1" {"#,
        r#"            return Err(GenericTypedError::InvalidSchemaName(value.to_string(), "V1.1".to_string()));"#,
        "        }",
        "        Ok(V1_1::default())",
        "    }",
        "}",
        "",
        "impl<NK, EK> Into<String> for V1_1<NK, EK> {",
        "    fn into(self) -> String {",
        "        self.to_string()",
        "    }",
        "}",
        "",
        "impl<NK, EK> ToString for V1_1<NK, EK> {",
        "    fn to_string(&self) -> String {",
        r#"        "V1.1".to_string()"#,
        "    }",
        "}",
    ]);
    assert_eq!(schema_impl_content(&schema, &vec![s("V1.0")]), expected);
}

#[test]
fn edge_rs_with_one_edge() {
    let owns = SchemaStm::Edge(EdgeExp {
        name: s("Owns"),
        comments: doc(&[]),
        attributes: no_attributes(),
        fields: Vec::new(),
        endpoints: Vec::new(),
    });
    let expected = lines(&[
        "use super::*;",
        "use std::fmt::Debug;",
        "use typed_graph::*;",
        "use serde::{Serialize, Deserialize};",
        "",
        "#[derive(Clone, Debug, Serialize, Deserialize)]",
        "pub enum Edge<EK> {",
        "    Owns(Owns<EK>),",
        "}",
        "",
        "impl<EK: Key> EdgeExt<EK> for Edge<EK> {}",
        "",
        "impl<EK> Typed for Edge<EK> {",
        "    type Type = EdgeType;",
        "    fn get_type(&self) -> EdgeType {",
        "        match self {",
        "            Edge::Owns(_) => EdgeType::Owns,",
        "        }",
        "    }",
        "}",
        "",
        "impl<EK: Key> Id<EK> for Edge<EK> {",
        "    fn get_id(&self) -> EK {",
        "        match self {",
        "            Edge::Owns(e) => e.get_id(),",
        "        }",
        "    }",
        "",
        "    fn set_id(&mut self, id: EK) {",
        "        match self {",
        "            Edge::Owns(e) => e.set_id(id),",
        "        }",
        "    }",
        "}",
        "",
        "impl<EK> From<Owns<EK>> for Edge<EK> {",
        "    fn from(other: Owns<EK>) -> Self {",
        "       Self::Owns(other)",
        "    }",
        "}",
        "",
        "impl<'b, NK, EK, S> Downcast<'b, NK, EK, &'b Owns<EK>, S> for Edge<EK>",
        "where",
        "    NK: Key,",
        "    EK: Key,",
        "    S: SchemaExt<NK, EK, E = Edge<EK>>",
        "{",
        "    fn downcast<'a: 'b>(&'a self) -> SchemaResult<&'a Owns<EK>, NK, EK, S> {",
        "        match self {",
        "            Edge::Owns(e) => Ok(e),",
        "            #[allow(unreachable_patterns)]",
        r#"            e => Err(TypedError::DownCastFailed("Owns".to_string(), e.get_type().to_string()))"#,
        "        }",
        "    }",
        "}",
        "",
        "impl<'b, NK, EK, S> DowncastMut<'b, NK, EK, &'b mut Owns<EK>, S> for Edge<EK>",
        "where",
        "    NK: Key,",
        "    EK: Key,",
        "    S: SchemaExt<NK, EK, E = Edge<EK>>",
        "{",
        "    fn downcast_mut<'a: 'b>(&'a mut self) -> SchemaResult<&'a mut Owns<EK>, NK, EK, S> {",
        "        match self {",
        "            Edge::Owns(e) => Ok(e),",
        "            #[allow(unreachable_patterns)]",
        r#"            e => Err(TypedError::DownCastFailed("Owns".to_string(), e.get_type().to_string()))"#,
        "        }",
        "    }",
        "}",
        "",
        "impl<EK: std::fmt::Display + Key> std::fmt::Display for Edge<EK> {",
        "    fn fmt(&self, f: &mut std::fmt::Formatter<'_>) -> std::fmt::Result {",
        r#"        write!(f, "{}({})", self.get_type(), self.get_id())"#,
        "    }",
        "}",
    ]);
    assert_eq!(edges_rs_content(&vec![owns]), expected);
}

#[test]
fn edge_rs_without_edges_keeps_an_id() {
    let text = edges_rs_content(&Vec::new());
    assert!(text.contains("pub struct Edge<EK> {\n    id: EK\n}\n"));
    assert!(text.contains("    fn get_type(&self) -> EdgeType {\n            EdgeType\n    }\n"));
    assert!(text.contains("    fn get_id(&self) -> EK {\n        self.id\n    }\n"));
    assert!(text.contains("    fn set_id(&mut self, id: EK) {\n        self.id = id;\n    }\n"));
}

fn plain_node(name: &str) -> SchemaStm {
    SchemaStm::Node(NodeExp { name: s(name), comments: doc(&[]), attributes: no_attributes(), fields: Vec::new() })
}

fn plain_edge(name: &str) -> SchemaStm {
    SchemaStm::Edge(EdgeExp {
        name: s(name),
        comments: doc(&[]),
        attributes: no_attributes(),
        fields: Vec::new(),
        endpoints: Vec::new(),
    })
}

#[test]
fn migration_drops_what_the_new_schema_lacks() {
    let old = Schema { version: s("V1.0"), content: vec![plain_node("A"), plain_node("B"), plain_edge("E")], hash: 1 };
    let new = Schema { version: s("V2.0"), content: vec![plain_node("A"), plain_edge("E")], hash: 2 };
    let full = "super::v2::V2_0";
    let n = format!("{full}<NK, EK>");
    let expected = lines(&[
        &format!("impl<NK, EK> MigrateSchema<NK, EK, {n}> for V1_0<NK, EK>"),
        "where",
        "    NK: Key,",
        "    EK: Key",
        "{",
        &format!("    fn update_node(&self, _new_schema: &{n}, node: Self::N) -> SchemaResult<Option<<{n} as SchemaExt<NK, EK>>::N>, NK, EK, {n}> {{"),
        "        match node {",
        &format!("            Node::A(e) => Ok(Some(super::v2::Node::A(e.try_into().map_err(|e: UpgradeError| SchemaError::<NK, EK, {n}>::UpgradeError(e))?))),"),
        "            Node::B(_) => Ok(None),",
        "           #[allow(unreachable_patterns)]",
        "           _ => Ok(None)",
        "        }",
        "    }",
        "",
        &format!("    fn update_edge(&self, _new_schema: &{n}, edge: Self::E) -> SchemaResult<Option<<{n} as SchemaExt<NK, EK>>::E>, NK, EK, {n}> {{"),
        "        match edge {",
        &format!("            Edge::E(e) => Ok(Some(super::v2::Edge::E(e.try_into().map_err(|e: UpgradeError| SchemaError::<NK, EK, {n}>::UpgradeError(e))?))),"),
        "            #[allow(unreachable_patterns)]",
        "            _ => Ok(None)",
        "        }",
        "    }",
        "",
        &format!("     fn update_edge_type(&self, _new_schema: &{n}, edge_type: <Self::E as Typed>::Type) -> Option<<<{n} as SchemaExt<NK, EK>>::E as Typed>::Type> {{"),
        "        match edge_type {",
        "            EdgeType::E => Some(super::v2::EdgeType::E),",
        "            #[allow(unreachable_patterns)]",
        "            _ => None",
        "        }",
        "    }",
        "",
        &format!("     fn update_node_type(&self, _new_schema: &{n}, node_type: <Self::N as Typed>::Type) -> Option<<<{n} as SchemaExt<NK, EK>>::N as Typed>::Type> {{"),
        "        match node_type {",
        "            NodeType::A => Some(super::v2::NodeType::A),",
        "            NodeType::B => None,",
        "            #[allow(unreachable_patterns)]",
        "            _ => None",
        "        }",
        "    }",
        "}",
        "",
        &format!("impl<NK, EK> Migration<NK, EK, {n}> for V1_0<NK, EK>"),
        "where",
        "    NK: Key,",
        "    EK: Key",
        "{",
        "    type Handler = DefaultMigrationHandler;",
        "}",
        "",
        &format!("impl<NK, EK> DirectMigration<NK, EK, {n}> for V1_0<NK, EK>"),
        "where",
        "    NK: Key,",
        "    EK: Key",
        "{",
        &format!("    fn migrate(g: TypedGraph<NK, EK, Self>) -> GenericTypedResult<TypedGraph<NK, EK, {n}>, NK, EK> {{"),
        "        <Self as Migration<NK, EK, _>>::migrate(g, &DefaultMigrationHandler, Default::default())",
        "    }",
        "}",
    ]);
    let actual = write_migrate_schema(&old, &new, &None, &s("super::v2"));
    for (i, (a, e)) in actual.split('\n').zip(expected.split('\n')).enumerate() {
        assert_eq!(a, e, "line {i}");
    }
    assert_eq!(actual, expected);
    let handled = write_migrate_schema(&old, &new, &Some(s("MyHandler")), &s("super::v2"));
    assert!(handled.contains("    type Handler = MyHandler;\n"));
    assert!(handled.contains("migrate(g, &MyHandler, Default::default())"));
}

#[test]
fn rust_edge_file_with_fields() {
    let mut since = field("since", Types::U64, Visibility::Public);
    since.comments = doc(&["When"]);
    let mut name = field("name", Types::Str, Visibility::Local);
    name.attributes.skipped = true;
    name.attributes.aliases.push(s("title"));
    let e = EdgeExp {
        name: s("Owns"),
        comments: doc(&["Ownership"]),
        attributes: no_attributes(),
        fields: vec![since, name],
        endpoints: Vec::new(),
    };
    let expected = lines(&[
        "#[allow(unused_imports)]",
        "use super::super::super::imports::*;",
        "#[allow(unused_imports)]",
        "use super::super::imports::*;",
        "#[allow(unused_imports)]",
        "use super::super::*;",
        "#[allow(unused_imports)]",
        "use indexmap::IndexMap;",
        "#[allow(unused_imports)]",
        "use std::collections::HashSet;",
        "use typed_graph::*;",
        "use serde::{Serialize, Deserialize};",
        "",
        "/// Ownership",
        "#[derive(Clone, Debug, Serialize, Deserialize)]",
        "pub struct Owns<EK> {",
        "    pub(crate) id: EK,",
        "    /// When",
        "    pub since: u64,",
        "    #[serde(skip)]",
        r#"    #[serde(alias="title")]"#,
        "    pub(crate) name: String,",
        "}",
        "",
        "#[allow(unused)]",
        "impl<EK> Owns<EK> {",
        "    pub fn new(",
        "        id: EK,",
        "        since: u64,",
        "        name: String",
        "   ) -> Self {",
        "        Self {",
        "           id,",
        "           since,",
        "           name",
        "        }",
        "    }",
        "}",
        "",
        "impl<EK> Typed for Owns<EK> {",
        "    type Type = EdgeType;",
        "    fn get_type(&self) -> EdgeType {",
        "       EdgeType::Owns",
        "    }",
        "}",
        "",
        "impl<EK: Key> Id<EK> for Owns<EK> {",
        "    fn get_id(&self) -> EK {",
        "       self.id",
        "    }",
        "",
        "    fn set_id(&mut self, id: EK) {",
        "        self.id = id",
        "    }",
        "}",
        "",
        "impl<EK> Name for Owns<EK> {",
        "    type Name = String;",
        "    fn get_name(&self) -> Option<&Self::Name> {",
        "       Some(&self.name)",
        "    }",
        "}",
        "",
        "impl<EK: std::fmt::Display + Key> std::fmt::Display for Owns<EK> {",
        "    fn fmt(&self, f: &mut std::fmt::Formatter<'_>) -> std::fmt::Result {",
        r#"        write!(f, "{}({})", self.get_type(), self.get_id())"#,
        "    }",
        "}",
    ]);
    let actual = rust_edge_content(&e);
    for (i, (a, x)) in actual.split('\n').zip(expected.split('\n')).enumerate() {
        assert_eq!(a, x, "line {i}");
    }
    assert_eq!(actual, expected);
}

#[test]
fn rust_struct_file_with_generics_and_derives() {
    let mut attributes = no_attributes();
    attributes.functions.push(AttributeFunction { name: s("derive"), values: vec![s("Hash"), s("PartialEq")] });
    let mut right = field(
        "right",
        Types::Optional { inner: Box::new(Types::Reference { inner: s("B"), generics: Vec::new() }) },
        Visibility::Local,
    );
    right.comments = doc(&["Second"]);
    let st = StructExp {
        name: s("Pair"),
        comments: doc(&["A pair"]),
        attributes,
        generics: vec![s("A"), s("B")],
        fields: vec![
            field("left", Types::Reference { inner: s("A"), generics: Vec::new() }, Visibility::Public),
            right,
        ],
    };
    let expected = lines(&[
        "#[allow(unused_imports)]",
        "use super::super::super::imports::*;",
        "#[allow(unused_imports)]",
        "use super::super::imports::*;",
        "#[allow(unused_imports)]",
        "use super::super::*;",
        "#[allow(unused_imports)]",
        "use indexmap::IndexMap;",
        "use serde::{Serialize, Deserialize};",
        "",
        "/// A pair",
        "#[derive(Clone, Debug, Hash, PartialEq)]",
        "pub struct Pair<A, B> {",
        "    pub left: A,",
        "    /// Second",
        "    pub(crate) right: Option<B>,",
        "}",
        "",
        "#[allow(unused)]",
        "impl<A, B> Pair<A, B> {",
        "    pub fn new(",
        "       left: A,",
        "       right: Option<B>,",
        "",
        "   ) -> Self {",
        "        Self {",
        "           left,",
        "           right,",
        "",
        "        }",
        "    }",
        "}",
    ]);
    let actual = rust_struct_content(&st);
    for (i, (a, x)) in actual.split('\n').zip(expected.split('\n')).enumerate() {
        assert_eq!(a, x, "line {i}");
    }
    assert_eq!(actual, expected);
}

fn owns_with(weight: Types) -> EdgeExp {
    EdgeExp {
        name: s("Owns"),
        comments: doc(&[]),
        attributes: no_attributes(),
        fields: vec![
            field("since", Types::U64, Visibility::Public),
            field("name", Types::Str, Visibility::Public),
            field("weight", weight, Visibility::Public),
        ],
        endpoints: Vec::new(),
    }
}

fn weight_change(old_type: Types, new_type: Types) -> ChangeSet {
    changeset_with(vec![
        SingleChange { path: vec![s("Owns"), s("name")], kind: ChangeKind::AddedField },
        SingleChange { path: vec![s("Owns"), s("weight")], kind: ChangeKind::EditedFieldType { old_type, new_type } },
    ])
}

#[test]
fn edge_conversion_converts_changed_types() {
    let e = owns_with(Types::Optional { inner: Box::new(Types::U8) });
    let cs = weight_change(Types::U8, Types::Optional { inner: Box::new(Types::U8) });
    let expected = lines(&[
        "impl<EK> TryFrom<V1Owns<EK>> for Owns<EK> {",
        "    type Error = GenericTypedError<String, String>;",
        "",
        "    fn try_from(other: V1Owns<EK>) -> GenericTypedResult<Self, String, String> {",
        "        Ok(Owns {",
        "            id: other.id.into(),",
        "           since: other.since,",
        "           name: Default::default(),",
        "           weight: Some(other.weight),",
        "       })",
        "    }",
        "}",
    ]);
    assert_eq!(write_edge_from(&e, &cs, &s("V1Owns")), expected);
}

#[test]
fn edge_conversion_that_cannot_be_generated_is_commented_out() {
    let e = owns_with(Types::Bool);
    let cs = weight_change(Types::Str, Types::Bool);
    let text = write_edge_from(&e, &cs, &s("V1Owns"));
    assert!(text.starts_with("/*Requires manual implementation\nimpl<EK> TryFrom<V1Owns<EK>> for Owns<EK> {\n"));
    assert!(text.contains("           weight: /* Insert convertion */,\n"));
    assert!(text.ends_with("}\n*/"));
}

#[test]
fn any_schema_for_two_versions() {
    let expected = lines(&[
        "use serde::{Serialize, Deserialize};",
        "use super::*;",
        "use typed_graph::*;",
        "use std::str::FromStr;",
        "",
        "#[derive(Serialize, Deserialize, Clone, Debug)]",
        r#"#[serde(untagged, bound = "NK: Clone, EK: Clone")]"#,
        "pub enum AnySchema<NK, EK> {",
        "    V1_0(V1_0<NK, EK>),",
        "    V2_0(V2_0<NK, EK>),",
        "}",
        "",
        "impl<NK, EK> FromStr for AnySchema<NK, EK> {",
        "    type Err = GenericTypedError<String, String>;",
        "",
        "    fn from_str(value: &str) -> Result<Self, Self::Err> {",
        "        if let Ok(v) = value.parse() {",
        "            Ok(AnySchema::V1_0(v))",
        "        } else if let Ok(v) = value.parse() {",
        "            Ok(AnySchema::V2_0(v))",
        "        } else {",
        r#"            Err(GenericTypedError::InvalidSchemaName(value.to_string(), "AnySchema".to_string()))"#,
        "        }",
        "    }",
        "}",
        "",
        "impl<NK, EK> ToString for AnySchema<NK, EK> {",
        "    fn to_string(&self) -> String {",
        "        match self {",
        "            AnySchema::V1_0(s) => s.to_string(),",
        "            AnySchema::V2_0(s) => s.to_string(),",
        "        }",
        "    }",
        "}",
        "",
        "impl<NK, EK> From<V1_0<NK, EK>> for AnySchema<NK, EK> {",
        "    fn from(v: V1_0<NK, EK>) -> Self {",
        "        AnySchema::V1_0(v)",
        "    }",
        "}",
        "",
        "impl<NK, EK> From<V2_0<NK, EK>> for AnySchema<NK, EK> {",
        "    fn from(v: V2_0<NK, EK>) -> Self {",
        "        AnySchema::V2_0(v)",
        "    }",
        "}",
    ]);
    let actual = any_schema_content(&vec![s("V1.0"), s("V2.0")]);
    for (i, (a, x)) in actual.split('\n').zip(expected.split('\n')).enumerate() {
        assert_eq!(a, x, "line {i}");
    }
    assert_eq!(actual, expected);
}

#[test]
fn python_enum_with_every_kind_of_variant() {
    let mut untagged = no_attributes();
    untagged.untagged = true;
    let mut skipped = no_attributes();
    skipped.skipped = true;
    let mut r = field("r", Types::U8, Visibility::Public);
    r.attributes.skipped = true;
    let mut g = field("g", Types::Reference { inner: s("T"), generics: Vec::new() }, Visibility::Public);
    g.attributes.aliases.push(s("green"));
    let mut aliased = no_attributes();
    aliased.aliases.push(s("colour"));
    let e = EnumExp {
        name: s("Color"),
        comments: doc(&["Colours"]),
        attributes: untagged,
        generics: vec![s("T")],
        varients: vec![
            EnumVarient::Unit { name: s("Red"), comments: doc(&["Warm"]), attributes: no_attributes() },
            EnumVarient::Opaque { name: s("Grey"), comments: doc(&[]), attributes: skipped, ty: Types::U8 },
            EnumVarient::Struct { name: s("Rgb"), comments: doc(&[]), attributes: aliased, fields: vec![r, g] },
        ],
    };
    let expected = lines(&[
        "from __future__ import annotations",
        "from typed_graph import NestedEnum",
        "from typing import Optional, List, Set, Dict, TypeVar, Generic, ClassVar, Annotated, Literal, TYPE_CHECKING",
        "from pydantic import Field, AliasChoices",
        "",
        "if TYPE_CHECKING:",
        "    from ..imports import *",
        "    from ...imports import *",
        "    from ..structs import *",
        "    from ..types import *",
        "",
        r#"T = TypeVar("T")"#,
        "class Color(NestedEnum[T], Generic[T]):",
        r#"    """"#,
        "    Colours",
        r#"    """"#,
        "    tagging: ClassVar[bool] = False",
        "    Red = Literal",
        r#"    """"#,
        "     Warm",
        r#"    """"#,
        "    Grey = int",
        "    Rgb = {",
        "         'r': Annotated[int, Field(exclude=True, default_factory=lambda:0)],",
        "         'g': Annotated['T', Field(validation_alias=AliasChoices('g', 'green'))],",
        "    } = Field(validation_alias=AliasChoices('Rgb', ''colour''))",
    ]);
    let actual = py_enum_content(&e);
    for (i, (a, x)) in actual.split('\n').zip(expected.split('\n')).enumerate() {
        assert_eq!(a, x, "line {i}");
    }
    assert_eq!(actual, expected);
}

#[test]
fn python_struct_quotes_references() {
    let st = StructExp {
        name: s("Pair"),
        comments: doc(&[]),
        attributes: no_attributes(),
        generics: vec![s("A"), s("B")],
        fields: vec![
            field("left", Types::Reference { inner: s("A"), generics: Vec::new() }, Visibility::Public),
            field("count", Types::Usize, Visibility::Public),
        ],
    };
    let expected = lines(&[
        "from __future__ import annotations",
        "from typed_graph import RustModel",
        "from typing import Optional, List, Set, Dict, TypeVar, Generic, ClassVar, TYPE_CHECKING",
        "from pydantic import Field, AliasChoices",
        "",
        "if TYPE_CHECKING:",
        "    from ..imports import *",
        "    from ...imports import *",
        "    from ..structs import *",
        "    from ..types import *",
        "",
        r#"A = TypeVar("A")"#,
        r#"B = TypeVar("B")"#,
        "class Pair(RustModel, Generic[A, B]):",
        "    left: 'A'",
        "    count: int",
    ]);
    assert_eq!(py_struct_content(&st), expected);
    let empty = StructExp {
        name: s("Unit"),
        comments: doc(&[]),
        attributes: no_attributes(),
        generics: Vec::new(),
        fields: Vec::new(),
    };
    assert!(py_struct_content(&empty).ends_with("class Unit(RustModel):\n     pass"));
}

#[test]
fn python_edge_file() {
    let e = EdgeExp {
        name: s("Owns"),
        comments: doc(&[]),
        attributes: no_attributes(),
        fields: vec![field("since", Types::U64, Visibility::Public)],
        endpoints: Vec::new(),
    };
    let expected = lines(&[
        "from ..edge_type import EdgeType",
        "from ..structs import *",
        "from ..types import *",
        "from ...imports import *",
        "from ..imports import *",
        "from pydantic import Field, AliasChoices",
        "from typing import Optional, List, Set, Dict, ClassVar",
        "from typed_graph import EdgeExt",
        "",
        "class Owns(EdgeExt[EdgeId, EdgeType]):",
        "    tagging: ClassVar[bool] = False",
        "    id: EdgeId",
        "    since: int",
        "",
        "    def get_id(self) -> EdgeId:",
        "        return self.id",
        "",
        "    def set_id(self, id: EdgeId) -> None:",
        "        self.id = id",
        "",
        "    def get_type(self) -> EdgeType:",
        "        return EdgeType.Owns",
    ]);
    assert_eq!(py_edge_content(&e), expected);
}
