use vstd::prelude::*;
use vstd::string::*;

use crate::generated_code::{spec_add_content, GeneratedCode};
use crate::paths::{join_path, spec_join_path};
use crate::project::str_equal;
use crate::rust_node::{field_named, get_field};
use crate::schema::{NodeExp, SchemaStm};
use crate::text::{concat_map, fill, lemma_concat_map_all, lemma_concat_map_step, write_fill};
use crate::types::schema_text;

verus! {

/// The template `parts` filled with the name of each node statement; other statements give nothing.
pub open spec fn on_nodes(parts: Seq<&str>) -> spec_fn(SchemaStm) -> Seq<char> {
    |st: SchemaStm|
        match st {
            SchemaStm::Node(n) => fill(parts, n.name@),
            _ => Seq::empty(),
        }
}

/// The schema has at least one node statement.
pub open spec fn has_nodes(c: Seq<SchemaStm>) -> bool {
    exists|i: int| 0 <= i < c.len() && #[trigger] c[i] is Node
}

/// `t` when `b` holds, `e` otherwise.
pub open spec fn either(b: bool, t: Seq<char>, e: Seq<char>) -> Seq<char> {
    if b {
        t
    } else {
        e
    }
}

/// Write the template `parts` once for each node statement, with the node's name in each hole.
pub fn write_each_node(s: &mut String, content: &Vec<SchemaStm>, parts: &[&str])
    ensures
        final(s)@ == old(s)@ + concat_map(content@, on_nodes(parts@)),
{
    let n = content.len();
    let mut i: usize = 0;
    while i < n
        invariant
            n == content@.len(),
            i <= n,
            s@ == old(s)@ + concat_map(content@.subrange(0, i as int), on_nodes(parts@)),
        decreases n - i,
    {
        proof {
            lemma_concat_map_step(content@, i as int, on_nodes(parts@));
        }
        let ghost before = s@;
        match &content[i] {
            SchemaStm::Node(node) => {
                write_fill(s, parts, node.name.as_str());
            },
            _ => {},
        }
        assert(s@ =~= before + on_nodes(parts@)(content@[i as int]));
        i = i + 1;
    }
    proof {
        lemma_concat_map_all(content@, on_nodes(parts@));
    }
}

/// Whether the schema has a node statement.
pub fn any_nodes(content: &Vec<SchemaStm>) -> (r: bool)
    ensures
        r == has_nodes(content@),
{
    let n = content.len();
    let mut i: usize = 0;
    while i < n
        invariant
            n == content@.len(),
            i <= n,
            forall|j: int| 0 <= j < i ==> !(#[trigger] content@[j] is Node),
        decreases n - i,
    {
        match &content[i] {
            SchemaStm::Node(_) => {
                return true;
            },
            _ => {},
        }
        i = i + 1;
    }
    false
}

/// The type of the field `name` of a node statement, as written in a schema.
pub open spec fn node_name_type(st: SchemaStm) -> Option<Seq<char>> {
    match st {
        SchemaStm::Node(n) => match field_named(n.fields@, "name"@) {
            Some(f) => Some(schema_text(f.field_type)),
            None => None,
        },
        _ => None,
    }
}

/// There are node statements, and each of them has a field `name` of type `t`.
pub open spec fn name_type_is(c: Seq<SchemaStm>, t: Seq<char>) -> bool {
    &&& has_nodes(c)
    &&& forall|i: int| 0 <= i < c.len() && #[trigger] c[i] is Node ==> node_name_type(c[i]) == Some(t)
}

/// The one type of the `name` fields of all nodes, when there is exactly one.
pub open spec fn shared_name_type(c: Seq<SchemaStm>) -> Option<Seq<char>> {
    if exists|t: Seq<char>| name_type_is(c, t) {
        Some(choose|t: Seq<char>| name_type_is(c, t))
    } else {
        None
    }
}

proof fn lemma_name_type_unique(c: Seq<SchemaStm>, t: Seq<char>)
    requires
        name_type_is(c, t),
    ensures
        shared_name_type(c) == Some(t),
{
    let u = choose|u: Seq<char>| name_type_is(c, u);
    let i = choose|i: int| 0 <= i < c.len() && #[trigger] c[i] is Node;
    assert(node_name_type(c[i]) == Some(t));
    assert(node_name_type(c[i]) == Some(u));
}

fn name_type_of(n: &NodeExp) -> (r: Option<String>)
    ensures
        match r {
            Some(t) => node_name_type(SchemaStm::Node(*n)) == Some(t@),
            None => node_name_type(SchemaStm::Node(*n)) is None,
        },
{
    match get_field(&n.fields, "name") {
        Some(f) => Some(f.field_type.to_schema_text()),
        None => None,
    }
}

/// The type of the `name` fields of the nodes, when every node has one and they all agree.
pub fn find_shared_name_type(content: &Vec<SchemaStm>) -> (r: Option<String>)
    ensures
        match r {
            Some(t) => shared_name_type(content@) == Some(t@),
            None => shared_name_type(content@) is None,
        },
{
    let n = content.len();
    let mut found: Option<String> = None;
    let mut i: usize = 0;
    while i < n
        invariant
            n == content@.len(),
            i <= n,
            match found {
                Some(t) => (exists|j: int| 0 <= j < i && #[trigger] content@[j] is Node) && forall|
                    j: int,
                |
                    0 <= j < i && #[trigger] content@[j] is Node ==> node_name_type(content@[j])
                        == Some(t@),
                None => forall|j: int| 0 <= j < i ==> !(#[trigger] content@[j] is Node),
            },
        decreases n - i,
    {
        match &content[i] {
            SchemaStm::Node(node) => {
                let t = match name_type_of(node) {
                    Some(t) => t,
                    None => {
                        proof {
                            assert forall|u: Seq<char>| !name_type_is(content@, u) by {
                                assert(content@[i as int] is Node);
                            }
                        }
                        return None;
                    },
                };
                match &found {
                    Some(f) => {
                        if !str_equal(f.as_str(), t.as_str()) {
                            proof {
                                assert forall|u: Seq<char>| !name_type_is(content@, u) by {
                                    let j = choose|j: int| 0 <= j < i && #[trigger] content@[j] is Node;
                                    assert(content@[i as int] is Node);
                                    assert(node_name_type(content@[j]) == Some(f@));
                                }
                            }
                            return None;
                        }
                    },
                    None => {
                        found = Some(t);
                    },
                }
            },
            _ => {},
        }
        i = i + 1;
    }
    match found {
        Some(t) => {
            proof {
                assert(name_type_is(content@, t@));
                lemma_name_type_unique(content@, t@);
            }
            Some(t)
        },
        None => {
            proof {
                assert forall|u: Seq<char>| !name_type_is(content@, u) by {}
            }
            None
        },
    }
}

/// One arm of `get_name` on the node enum: nodes without a `name` field have none.
pub open spec fn name_arm() -> spec_fn(SchemaStm) -> Seq<char> {
    |st: SchemaStm|
        match st {
            SchemaStm::Node(n) => if field_named(n.fields@, "name"@) is Some {
                fill(seq!["        Node::", "(e) => e.get_name(),\n"], n.name@)
            } else {
                fill(seq!["        Node::", "(e) => None,\n"], n.name@)
            },
            _ => Seq::empty(),
        }
}

/// The head of node.rs: its imports and the derive line of the node type.
pub open spec fn nodes_rs_head() -> Seq<char> {
    "#[allow(unused_imports)]\nuse super::super::imports::*;\nuse super::*;\nuse std::fmt::Debug;\nuse typed_graph::*;\nuse serde::{Serialize, Deserialize};\n"@
        + "\n"@ + "#[derive(Clone, Debug, Serialize, Deserialize)]\n"@
}

/// The node type: an enum with a variant for each node, or a bare struct without nodes.
pub open spec fn nodes_rs_decl(c: Seq<SchemaStm>) -> Seq<char> {
    either(
        has_nodes(c),
        "pub enum Node<NK> {\n"@ + concat_map(c, on_nodes(seq!["    ", "(", "<NK>),\n"]))
            + "}\n"@,
        "pub struct Node<NK> {\n"@ + "    id: NK\n"@ + "}\n"@,
    )
}

/// The `NodeExt`, `Typed` and `Id` implementations of the node type.
pub open spec fn nodes_rs_typed_id(c: Seq<SchemaStm>) -> Seq<char> {
    let h = has_nodes(c);
    "\n"@ + "impl<NK: Key> NodeExt<NK> for Node<NK>{}\n"@ + "\n"@ + "impl<NK> Typed for Node<NK> {\n"@
        + "    type Type = NodeType;\n"@ + "    fn get_type(&self) -> NodeType {\n"@ + either(
        h,
        "        match self {\n"@ + concat_map(
            c,
            on_nodes(seq!["            Node::", "(_) => NodeType::", ",\n"]),
        ) + "        }\n"@,
        "        NodeType\n"@,
    ) + "    }\n"@ + "}\n"@ + "\n"@ + "impl<NK: Key> Id<NK> for Node<NK> {\n"@
        + "    fn get_id(&self) -> NK {\n"@ + either(
        h,
        "        match self {\n"@ + concat_map(c, on_nodes(seq!["            Node::", "(e) => e.get_id(),\n"]))
            + "        }\n"@,
        "        self.id\n"@,
    ) + "    }\n"@ + "\n"@ + "    fn set_id(&mut self, id: NK) {\n"@ + either(
        h,
        "        match self {\n"@ + concat_map(c, on_nodes(seq!["            Node::", "(e) => e.set_id(id),\n"]))
            + "        }\n"@,
        "        self.id = id;\n"@,
    ) + "    }\n"@ + "}\n"@
}

/// The `Name` implementation of the node type, written when all nodes share one name type.
pub open spec fn nodes_rs_name(c: Seq<SchemaStm>) -> Seq<char> {
    match shared_name_type(c) {
        Some(t) => "\n"@ + "impl<NK> Name for Node<NK> {\n"@ + "    type Name = "@ + t + ";\n"@
            + "    fn get_name(&self) -> Option<&Self::Name> {\n"@ + "       match self {\n"@
            + concat_map(c, name_arm()) + "       }\n"@ + "    }\n"@ + "}\n"@,
        None => Seq::empty(),
    }
}

/// The `From` conversion of each node into the node type.
pub open spec fn node_from_template() -> Seq<&'static str> {
    seq![
        "\nimpl<NK> From<",
        "<NK>> for Node<NK> {\n    fn from(other: ",
        "<NK>) -> Self {\n        Self::",
        "(other)\n    }\n}\n",
    ]
}

/// The `Downcast` implementation for each node.
pub open spec fn node_downcast_template() -> Seq<&'static str> {
    seq![
        "\nimpl<'a, NK, EK, S> Downcast<'a, NK, EK, &'a ",
        "<NK>, S> for Node<NK>\nwhere\n    NK: Key,\n    EK: Key,\n    S: SchemaExt<NK, EK, N = Node<NK>>\n{\n    fn downcast(&'a self) -> SchemaResult<&'a ",
        "<NK>, NK, EK, S> {\n        match self {\n            Node::",
        "(n) => Ok(n),\n            #[allow(unreachable_patterns)]\n            n => Err(TypedError::DownCastFailed(\"",
        "\".to_string(), n.get_type().to_string()))\n        }\n    }\n}\n",
    ]
}

/// The `DowncastMut` implementation for each node.
pub open spec fn node_downcast_mut_template() -> Seq<&'static str> {
    seq![
        "\nimpl<'a, NK, EK, S> DowncastMut<'a, NK, EK, &'a mut ",
        "<NK>, S> for Node<NK>\nwhere\n    NK: Key,\n    EK: Key,\n    S: SchemaExt<NK, EK, N = Node<NK>>\n{\n    fn downcast_mut(&'a mut self) -> SchemaResult<&'a mut ",
        "<NK>, NK, EK, S> {\n        match self {\n            Node::",
        "(n) => Ok(n),\n            #[allow(unreachable_patterns)]\n            n => Err(TypedError::DownCastFailed(\"",
        "\".to_string(), n.get_type().to_string()))\n        }\n    }\n}\n",
    ]
}

/// The `Display` implementation of the node type.
pub open spec fn nodes_rs_display() -> Seq<char> {
    "\n"@ + "impl<NK: std::fmt::Display + Key> std::fmt::Display for Node<NK> {\n"@
        + "    fn fmt(&self, f: &mut std::fmt::Formatter<'_>) -> std::fmt::Result {\n"@
        + "        write!(f, \"{}({})\", self.get_type(), self.get_id())\n"@ + "    }\n"@ + "}\n"@
}

/// The whole node.rs of a schema.
pub open spec fn nodes_rs_text(c: Seq<SchemaStm>) -> Seq<char> {
    nodes_rs_head() + nodes_rs_decl(c) + nodes_rs_typed_id(c) + nodes_rs_name(c) + concat_map(
        c,
        on_nodes(node_from_template()),
    ) + concat_map(c, on_nodes(node_downcast_template())) + concat_map(
        c,
        on_nodes(node_downcast_mut_template()),
    ) + nodes_rs_display()
}

fn write_nodes_decl(s: &mut String, content: &Vec<SchemaStm>, h: bool)
    requires
        h == has_nodes(content@),
    ensures
        final(s)@ == old(s)@ + nodes_rs_decl(content@),
{
    let ghost start = s@;
    if h {
        s.append("pub enum Node<NK> {\n");
        write_each_node(s, content, &["    ", "(", "<NK>),\n"]);
        s.append("}\n");
    } else {
        s.append("pub struct Node<NK> {\n");
        s.append("    id: NK\n");
        s.append("}\n");
    }
    assert(s@ =~= start + nodes_rs_decl(content@));
}

fn write_match_or(s: &mut String, content: &Vec<SchemaStm>, h: bool, parts: &[&str], other: &str)
    requires
        h == has_nodes(content@),
    ensures
        final(s)@ == old(s)@ + either(
            h,
            "        match self {\n"@ + concat_map(content@, on_nodes(parts@)) + "        }\n"@,
            other@,
        ),
{
    let ghost start = s@;
    if h {
        s.append("        match self {\n");
        write_each_node(s, content, parts);
        s.append("        }\n");
    } else {
        s.append(other);
    }
    assert(s@ =~= start + either(
        h,
        "        match self {\n"@ + concat_map(content@, on_nodes(parts@)) + "        }\n"@,
        other@,
    ));
}

#[verifier::rlimit(40)]
#[verifier::spinoff_prover]
fn write_nodes_typed_id(s: &mut String, content: &Vec<SchemaStm>, h: bool)
    requires
        h == has_nodes(content@),
    ensures
        final(s)@ == old(s)@ + nodes_rs_typed_id(content@),
{
    let ghost start = s@;
    s.append("\n");
    s.append("impl<NK: Key> NodeExt<NK> for Node<NK>{}\n");
    s.append("\n");
    s.append("impl<NK> Typed for Node<NK> {\n");
    s.append("    type Type = NodeType;\n");
    s.append("    fn get_type(&self) -> NodeType {\n");
    write_match_or(s, content, h, &["            Node::", "(_) => NodeType::", ",\n"], "        NodeType\n");
    s.append("    }\n");
    s.append("}\n");
    s.append("\n");
    s.append("impl<NK: Key> Id<NK> for Node<NK> {\n");
    s.append("    fn get_id(&self) -> NK {\n");
    write_match_or(s, content, h, &["            Node::", "(e) => e.get_id(),\n"], "        self.id\n");
    s.append("    }\n");
    s.append("\n");
    s.append("    fn set_id(&mut self, id: NK) {\n");
    write_match_or(s, content, h, &["            Node::", "(e) => e.set_id(id),\n"], "        self.id = id;\n");
    s.append("    }\n");
    s.append("}\n");
    assert(s@ =~= start + nodes_rs_typed_id(content@));
}

fn write_name_arms(s: &mut String, content: &Vec<SchemaStm>)
    ensures
        final(s)@ == old(s)@ + concat_map(content@, name_arm()),
{
    let n = content.len();
    let mut i: usize = 0;
    while i < n
        invariant
            n == content@.len(),
            i <= n,
            s@ == old(s)@ + concat_map(content@.subrange(0, i as int), name_arm()),
        decreases n - i,
    {
        proof {
            lemma_concat_map_step(content@, i as int, name_arm());
        }
        let ghost before = s@;
        match &content[i] {
            SchemaStm::Node(node) => {
                if get_field(&node.fields, "name").is_some() {
                    write_fill(s, &["        Node::", "(e) => e.get_name(),\n"], node.name.as_str());
                } else {
                    write_fill(s, &["        Node::", "(e) => None,\n"], node.name.as_str());
                }
            },
            _ => {},
        }
        assert(s@ =~= before + name_arm()(content@[i as int]));
        i = i + 1;
    }
    proof {
        lemma_concat_map_all(content@, name_arm());
    }
}

fn write_nodes_name(s: &mut String, content: &Vec<SchemaStm>)
    ensures
        final(s)@ == old(s)@ + nodes_rs_name(content@),
{
    let ghost start = s@;
    match find_shared_name_type(content) {
        Some(t) => {
            s.append("\n");
            s.append("impl<NK> Name for Node<NK> {\n");
            s.append("    type Name = ");
            s.append(t.as_str());
            s.append(";\n");
            s.append("    fn get_name(&self) -> Option<&Self::Name> {\n");
            s.append("       match self {\n");
            write_name_arms(s, content);
            s.append("       }\n");
            s.append("    }\n");
            s.append("}\n");
        },
        None => {},
    }
    assert(s@ =~= start + nodes_rs_name(content@));
}

fn write_nodes_casts(s: &mut String, content: &Vec<SchemaStm>)
    ensures
        final(s)@ == old(s)@ + concat_map(content@, on_nodes(node_from_template())) + concat_map(
            content@,
            on_nodes(node_downcast_template()),
        ) + concat_map(content@, on_nodes(node_downcast_mut_template())),
{
    let from: [&str; 4] = [
        "\nimpl<NK> From<",
        "<NK>> for Node<NK> {\n    fn from(other: ",
        "<NK>) -> Self {\n        Self::",
        "(other)\n    }\n}\n",
    ];
    assert(from@ =~= node_from_template());
    write_each_node(s, content, &from);
    let down: [&str; 5] = [
        "\nimpl<'a, NK, EK, S> Downcast<'a, NK, EK, &'a ",
        "<NK>, S> for Node<NK>\nwhere\n    NK: Key,\n    EK: Key,\n    S: SchemaExt<NK, EK, N = Node<NK>>\n{\n    fn downcast(&'a self) -> SchemaResult<&'a ",
        "<NK>, NK, EK, S> {\n        match self {\n            Node::",
        "(n) => Ok(n),\n            #[allow(unreachable_patterns)]\n            n => Err(TypedError::DownCastFailed(\"",
        "\".to_string(), n.get_type().to_string()))\n        }\n    }\n}\n",
    ];
    assert(down@ =~= node_downcast_template());
    write_each_node(s, content, &down);
    let down_mut: [&str; 5] = [
        "\nimpl<'a, NK, EK, S> DowncastMut<'a, NK, EK, &'a mut ",
        "<NK>, S> for Node<NK>\nwhere\n    NK: Key,\n    EK: Key,\n    S: SchemaExt<NK, EK, N = Node<NK>>\n{\n    fn downcast_mut(&'a mut self) -> SchemaResult<&'a mut ",
        "<NK>, NK, EK, S> {\n        match self {\n            Node::",
        "(n) => Ok(n),\n            #[allow(unreachable_patterns)]\n            n => Err(TypedError::DownCastFailed(\"",
        "\".to_string(), n.get_type().to_string()))\n        }\n    }\n}\n",
    ];
    assert(down_mut@ =~= node_downcast_mut_template());
    write_each_node(s, content, &down_mut);
}

/// The text of node.rs for a schema with the statements `content`.
pub fn nodes_rs_content(content: &Vec<SchemaStm>) -> (r: String)
    ensures
        r@ == nodes_rs_text(content@),
{
    let h = any_nodes(content);
    let mut s = String::from_str(
        "#[allow(unused_imports)]\nuse super::super::imports::*;\nuse super::*;\nuse std::fmt::Debug;\nuse typed_graph::*;\nuse serde::{Serialize, Deserialize};\n",
    );
    s.append("\n");
    s.append("#[derive(Clone, Debug, Serialize, Deserialize)]\n");
    let ghost head = s@;
    write_nodes_decl(&mut s, content, h);
    write_nodes_typed_id(&mut s, content, h);
    write_nodes_name(&mut s, content);
    write_nodes_casts(&mut s, content);
    let ghost mid = s@;
    s.append("\n");
    s.append("impl<NK: std::fmt::Display + Key> std::fmt::Display for Node<NK> {\n");
    s.append("    fn fmt(&self, f: &mut std::fmt::Formatter<'_>) -> std::fmt::Result {\n");
    s.append("        write!(f, \"{}({})\", self.get_type(), self.get_id())\n");
    s.append("    }\n");
    s.append("}\n");
    assert(s@ =~= mid + nodes_rs_display());
    assert(s@ =~= nodes_rs_text(content@));
    s
}

/// Add node.rs, for a schema with the statements `content`, to the files under `schema_folder`.
pub fn write_nodes_rs(content: &Vec<SchemaStm>, new_files: &mut GeneratedCode, schema_folder: &str)
    ensures
        final(new_files)@ == spec_add_content(
            old(new_files)@,
            spec_join_path(schema_folder@, "node.rs"@),
            nodes_rs_text(content@),
        ),
{
    let node_path = join_path(schema_folder, "node.rs");
    let node = nodes_rs_content(content);
    new_files.add_content(node_path, node);
}

/// The node statements, each once: `t` for every node, with the node's name in the holes.
pub open spec fn node_type_rs_text(c: Seq<SchemaStm>) -> Seq<char> {
    let h = has_nodes(c);
    "use super::*;\nuse serde::{Serialize, Deserialize};\n"@ + "\n"@
        + "#[derive(Clone, Copy, Debug, PartialEq, Serialize, Deserialize)]\n"@ + either(
        h,
        "pub enum NodeType {\n"@ + concat_map(c, on_nodes(seq!["    ", ",\n"])) + "}\n"@,
        "pub struct NodeType;\n"@,
    ) + "\n"@ + "impl<NK> PartialEq<NodeType> for Node<NK> {\n"@
        + "    fn eq(&self, _other: &NodeType) -> bool {\n"@ + either(
        h,
        "        match (_other, self) {\n"@ + concat_map(
            c,
            on_nodes(seq!["           (NodeType::", ", Node::", "(_)) => true,\n"]),
        ) + "           _ => false,\n"@ + "        }\n"@,
        "        true\n"@,
    ) + "    }\n"@ + "}\n"@ + "\n"@ + "impl<NK> PartialEq<Node<NK>> for NodeType {\n"@
        + "    fn eq(&self, other: &Node<NK>) -> bool {\n"@ + "       other.eq(self)\n"@
        + "    }\n"@ + "}\n"@ + "\n"@ + concat_map(c, on_nodes(node_type_eq_template())) + "\n"@
        + "impl std::fmt::Display for NodeType {\n"@
        + "    fn fmt(&self, f: &mut std::fmt::Formatter<'_>) -> std::fmt::Result {\n"@ + either(
        h,
        "        match self {\n"@ + concat_map(
            c,
            on_nodes(seq!["            NodeType::", " => write!(f, \"", "\"),\n"]),
        ) + "        }\n"@,
        "        write!(f, \"NodeType\")\n"@,
    ) + "    }\n"@ + "}\n"@
}

/// The comparisons between each node and the node type.
pub open spec fn node_type_eq_template() -> Seq<&'static str> {
    seq![
        "impl<NK> PartialEq<NodeType> for ",
        "<NK> {\n    fn eq(&self, ty: &NodeType) -> bool {\n        matches!(ty, NodeType::",
        ")\n    }\n}\n\nimpl<EK> PartialEq<",
        "<EK>> for NodeType {\n    fn eq(&self, other: &",
        "<EK>) -> bool {\n        other.eq(self)\n    }\n}\n",
    ]
}

/// The text of node_type.rs for a schema with the statements `content`.
pub fn node_type_rs_content(content: &Vec<SchemaStm>) -> (r: String)
    ensures
        r@ == node_type_rs_text(content@),
{
    let h = any_nodes(content);
    let mut s = String::from_str("use super::*;\nuse serde::{Serialize, Deserialize};\n");
    s.append("\n");
    s.append("#[derive(Clone, Copy, Debug, PartialEq, Serialize, Deserialize)]\n");
    if h {
        s.append("pub enum NodeType {\n");
        write_each_node(&mut s, content, &["    ", ",\n"]);
        s.append("}\n");
    } else {
        s.append("pub struct NodeType;\n");
    }
    let ghost a = s@;
    s.append("\n");
    s.append("impl<NK> PartialEq<NodeType> for Node<NK> {\n");
    s.append("    fn eq(&self, _other: &NodeType) -> bool {\n");
    if h {
        s.append("        match (_other, self) {\n");
        write_each_node(&mut s, content, &["           (NodeType::", ", Node::", "(_)) => true,\n"]);
        s.append("           _ => false,\n");
        s.append("        }\n");
    } else {
        s.append("        true\n");
    }
    s.append("    }\n");
    s.append("}\n");
    s.append("\n");
    s.append("impl<NK> PartialEq<Node<NK>> for NodeType {\n");
    s.append("    fn eq(&self, other: &Node<NK>) -> bool {\n");
    s.append("       other.eq(self)\n");
    s.append("    }\n");
    s.append("}\n");
    s.append("\n");
    let ghost b = s@;
    let eq: [&str; 5] = [
        "impl<NK> PartialEq<NodeType> for ",
        "<NK> {\n    fn eq(&self, ty: &NodeType) -> bool {\n        matches!(ty, NodeType::",
        ")\n    }\n}\n\nimpl<EK> PartialEq<",
        "<EK>> for NodeType {\n    fn eq(&self, other: &",
        "<EK>) -> bool {\n        other.eq(self)\n    }\n}\n",
    ];
    assert(eq@ =~= node_type_eq_template());
    write_each_node(&mut s, content, &eq);
    s.append("\n");
    s.append("impl std::fmt::Display for NodeType {\n");
    s.append("    fn fmt(&self, f: &mut std::fmt::Formatter<'_>) -> std::fmt::Result {\n");
    if h {
        s.append("        match self {\n");
        write_each_node(&mut s, content, &["            NodeType::", " => write!(f, \"", "\"),\n"]);
        s.append("        }\n");
    } else {
        s.append("        write!(f, \"NodeType\")\n");
    }
    s.append("    }\n");
    s.append("}\n");
    assert(s@ =~= node_type_rs_text(content@));
    s
}

/// Add node_type.rs, for a schema with the statements `content`, to the files under `schema_folder`.
pub fn write_node_type_rs(content: &Vec<SchemaStm>, new_files: &mut GeneratedCode, schema_folder: &str)
    ensures
        final(new_files)@ == spec_add_content(
            old(new_files)@,
            spec_join_path(schema_folder@, "node_type.rs"@),
            node_type_rs_text(content@),
        ),
{
    let path = join_path(schema_folder, "node_type.rs");
    let text = node_type_rs_content(content);
    new_files.add_content(path, text);
}

} // verus!
