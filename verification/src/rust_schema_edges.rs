use vstd::prelude::*;
use vstd::string::*;

use crate::code_generator::{CodeGenerator, Rust};
use crate::error::GenResult;
use crate::generated_code::{spec_add_content, GeneratedCode};
use crate::paths::{join_path, spec_join_path};
use crate::rust_fields::{rust_comments_text, rust_fields_text, write_comments, write_fields, FieldFormatter};
use crate::rust_items::{fmt_at, one_file, single_file};
use crate::rust_node::{field_named, get_field, node_new_field};
use crate::rust_schema_nodes::either;
use crate::schema::{EdgeExp, FieldValue, SchemaStm};
use crate::text::{
    concat_map, fill, lemma_concat_map_all, lemma_concat_map_step, snake_text, to_snake_case,
    write_fill,
};
use crate::to_rust_type::ToRustType;
use crate::types::{rust_type, schema_text};

verus! {

/// The template `parts` filled with the name of each edge statement; other statements give nothing.
pub open spec fn on_edges(parts: Seq<&str>) -> spec_fn(SchemaStm) -> Seq<char> {
    |st: SchemaStm|
        match st {
            SchemaStm::Edge(e) => fill(parts, e.name@),
            _ => Seq::empty(),
        }
}

/// The schema has at least one edge statement.
pub open spec fn has_edges(c: Seq<SchemaStm>) -> bool {
    exists|i: int| 0 <= i < c.len() && #[trigger] c[i] is Edge
}

/// Write the template `parts` once for each edge statement, with the edge's name in each hole.
pub fn write_each_edge(s: &mut String, content: &Vec<SchemaStm>, parts: &[&str])
    ensures
        final(s)@ == old(s)@ + concat_map(content@, on_edges(parts@)),
{
    let n = content.len();
    let mut i: usize = 0;
    while i < n
        invariant
            n == content@.len(),
            i <= n,
            s@ == old(s)@ + concat_map(content@.subrange(0, i as int), on_edges(parts@)),
        decreases n - i,
    {
        proof {
            lemma_concat_map_step(content@, i as int, on_edges(parts@));
        }
        let ghost before = s@;
        match &content[i] {
            SchemaStm::Edge(e) => {
                write_fill(s, parts, e.name.as_str());
            },
            _ => {},
        }
        assert(s@ =~= before + on_edges(parts@)(content@[i as int]));
        i = i + 1;
    }
    proof {
        lemma_concat_map_all(content@, on_edges(parts@));
    }
}

/// Whether the schema has an edge statement.
pub fn any_edges(content: &Vec<SchemaStm>) -> (r: bool)
    ensures
        r == has_edges(content@),
{
    let n = content.len();
    let mut i: usize = 0;
    while i < n
        invariant
            n == content@.len(),
            i <= n,
            forall|j: int| 0 <= j < i ==> !(#[trigger] content@[j] is Edge),
        decreases n - i,
    {
        match &content[i] {
            SchemaStm::Edge(_) => {
                return true;
            },
            _ => {},
        }
        i = i + 1;
    }
    false
}

/// A parameter of the constructor of an edge.
pub open spec fn edge_new_param() -> spec_fn(FieldValue) -> Seq<char> {
    |f: FieldValue| ",\n"@ + "        "@ + f.name@ + ": "@ + rust_type(f.field_type)
}

/// The imports at the top of a generated Rust edge file.
pub open spec fn rust_edge_imports() -> Seq<char> {
    "#[allow(unused_imports)]\nuse super::super::super::imports::*;\n#[allow(unused_imports)]\nuse super::super::imports::*;\n#[allow(unused_imports)]\nuse super::super::*;\n#[allow(unused_imports)]\nuse indexmap::IndexMap;\n#[allow(unused_imports)]\nuse std::collections::HashSet;\nuse typed_graph::*;\nuse serde::{Serialize, Deserialize};\n"@
}

/// The edge struct and its constructor.
pub open spec fn rust_edge_decl(e: EdgeExp) -> Seq<char> {
    "\n"@ + rust_comments_text(e.comments, fmt_at(0, false))
        + "#[derive(Clone, Debug, Serialize, Deserialize)]\n"@ + "pub struct "@ + e.name@
        + "<EK> {\n"@ + "    pub(crate) id: EK,\n"@ + rust_fields_text(e.fields@, fmt_at(1, true))
        + "}\n"@ + "\n"@ + "#[allow(unused)]\n"@ + "impl<EK> "@ + e.name@ + "<EK> {\n"@
        + "    pub fn new(\n"@ + "        id: EK"@ + concat_map(e.fields@, edge_new_param()) + "\n"@
        + "   ) -> Self {\n"@ + "        Self {\n"@ + "           id"@ + concat_map(
        e.fields@,
        node_new_field(),
    ) + "\n"@ + "        }\n"@ + "    }\n"@ + "}\n"@
}

/// The `Typed` and `Id` implementations of an edge struct.
pub open spec fn edge_typed_id_template() -> Seq<&'static str> {
    seq![
        "\nimpl<EK> Typed for ",
        "<EK> {\n    type Type = EdgeType;\n    fn get_type(&self) -> EdgeType {\n       EdgeType::",
        "\n    }\n}\n\nimpl<EK: Key> Id<EK> for ",
        "<EK> {\n    fn get_id(&self) -> EK {\n       self.id\n    }\n\n    fn set_id(&mut self, id: EK) {\n        self.id = id\n    }\n}\n",
    ]
}

/// The `Name` implementation, written when the edge has a field called `name`.
pub open spec fn rust_edge_name(e: EdgeExp) -> Seq<char> {
    match field_named(e.fields@, "name"@) {
        Some(f) => "\n"@ + "impl<EK> Name for "@ + e.name@ + "<EK> {\n"@ + "    type Name = "@
            + schema_text(f.field_type) + ";\n"@
            + "    fn get_name(&self) -> Option<&Self::Name> {\n"@ + "       Some(&self.name)\n"@
            + "    }\n"@ + "}\n"@,
        None => Seq::empty(),
    }
}

/// The `Display` implementation of an edge struct.
pub open spec fn edge_display_template() -> Seq<&'static str> {
    seq![
        "\nimpl<EK: std::fmt::Display + Key> std::fmt::Display for ",
        "<EK> {\n    fn fmt(&self, f: &mut std::fmt::Formatter<'_>) -> std::fmt::Result {\n        write!(f, \"{}({})\", self.get_type(), self.get_id())\n    }\n}\n",
    ]
}

/// The whole Rust file written for an edge.
pub open spec fn rust_edge_file(e: EdgeExp) -> Seq<char> {
    rust_edge_imports() + rust_edge_decl(e) + fill(edge_typed_id_template(), e.name@)
        + rust_edge_name(e) + fill(edge_display_template(), e.name@)
}

fn write_edge_params(s: &mut String, fields: &Vec<FieldValue>)
    ensures
        final(s)@ == old(s)@ + concat_map(fields@, edge_new_param()),
{
    let n = fields.len();
    let mut i: usize = 0;
    while i < n
        invariant
            n == fields@.len(),
            i <= n,
            s@ == old(s)@ + concat_map(fields@.subrange(0, i as int), edge_new_param()),
        decreases n - i,
    {
        proof {
            lemma_concat_map_step(fields@, i as int, edge_new_param());
        }
        let ghost before = s@;
        let ty = fields[i].field_type.to_rust_type();
        s.append(",\n");
        s.append("        ");
        s.append(fields[i].name.as_str());
        s.append(": ");
        s.append(ty.as_str());
        assert(s@ =~= before + edge_new_param()(fields@[i as int]));
        i = i + 1;
    }
    proof {
        lemma_concat_map_all(fields@, edge_new_param());
    }
}

fn write_edge_field_inits(s: &mut String, fields: &Vec<FieldValue>)
    ensures
        final(s)@ == old(s)@ + concat_map(fields@, node_new_field()),
{
    let n = fields.len();
    let mut i: usize = 0;
    while i < n
        invariant
            n == fields@.len(),
            i <= n,
            s@ == old(s)@ + concat_map(fields@.subrange(0, i as int), node_new_field()),
        decreases n - i,
    {
        proof {
            lemma_concat_map_step(fields@, i as int, node_new_field());
        }
        let ghost before = s@;
        s.append(",\n");
        s.append("           ");
        s.append(fields[i].name.as_str());
        assert(s@ =~= before + node_new_field()(fields@[i as int]));
        i = i + 1;
    }
    proof {
        lemma_concat_map_all(fields@, node_new_field());
    }
}

fn write_edge_decl(s: &mut String, e: &EdgeExp)
    ensures
        final(s)@ == old(s)@ + rust_edge_decl(*e),
{
    let ghost start = s@;
    s.append("\n");
    write_comments(s, &e.comments, FieldFormatter { indents: 0, include_visibility: false });
    s.append("#[derive(Clone, Debug, Serialize, Deserialize)]\n");
    s.append("pub struct ");
    s.append(e.name.as_str());
    s.append("<EK> {\n");
    s.append("    pub(crate) id: EK,\n");
    write_fields(s, &e.fields, FieldFormatter { indents: 1, include_visibility: true });
    s.append("}\n");
    let ghost mid = s@;
    s.append("\n");
    s.append("#[allow(unused)]\n");
    s.append("impl<EK> ");
    s.append(e.name.as_str());
    s.append("<EK> {\n");
    s.append("    pub fn new(\n");
    s.append("        id: EK");
    write_edge_params(s, &e.fields);
    s.append("\n");
    s.append("   ) -> Self {\n");
    s.append("        Self {\n");
    s.append("           id");
    write_edge_field_inits(s, &e.fields);
    s.append("\n");
    s.append("        }\n");
    s.append("    }\n");
    s.append("}\n");
    assert(s@ =~= start + rust_edge_decl(*e));
}

fn write_edge_name(s: &mut String, e: &EdgeExp)
    ensures
        final(s)@ == old(s)@ + rust_edge_name(*e),
{
    let ghost start = s@;
    match get_field(&e.fields, "name") {
        Some(f) => {
            let name_type = f.field_type.to_schema_text();
            s.append("\n");
            s.append("impl<EK> Name for ");
            s.append(e.name.as_str());
            s.append("<EK> {\n");
            s.append("    type Name = ");
            s.append(name_type.as_str());
            s.append(";\n");
            s.append("    fn get_name(&self) -> Option<&Self::Name> {\n");
            s.append("       Some(&self.name)\n");
            s.append("    }\n");
            s.append("}\n");
        },
        None => {},
    }
    assert(s@ =~= start + rust_edge_name(*e));
}

/// The text of the Rust file written for an edge.
pub fn rust_edge_content(e: &EdgeExp) -> (r: String)
    ensures
        r@ == rust_edge_file(*e),
{
    let mut s = String::from_str(
        "#[allow(unused_imports)]\nuse super::super::super::imports::*;\n#[allow(unused_imports)]\nuse super::super::imports::*;\n#[allow(unused_imports)]\nuse super::super::*;\n#[allow(unused_imports)]\nuse indexmap::IndexMap;\n#[allow(unused_imports)]\nuse std::collections::HashSet;\nuse typed_graph::*;\nuse serde::{Serialize, Deserialize};\n",
    );
    write_edge_decl(&mut s, e);
    let typed: [&str; 4] = [
        "\nimpl<EK> Typed for ",
        "<EK> {\n    type Type = EdgeType;\n    fn get_type(&self) -> EdgeType {\n       EdgeType::",
        "\n    }\n}\n\nimpl<EK: Key> Id<EK> for ",
        "<EK> {\n    fn get_id(&self) -> EK {\n       self.id\n    }\n\n    fn set_id(&mut self, id: EK) {\n        self.id = id\n    }\n}\n",
    ];
    assert(typed@ =~= edge_typed_id_template());
    write_fill(&mut s, &typed, e.name.as_str());
    write_edge_name(&mut s, e);
    let display: [&str; 2] = [
        "\nimpl<EK: std::fmt::Display + Key> std::fmt::Display for ",
        "<EK> {\n    fn fmt(&self, f: &mut std::fmt::Formatter<'_>) -> std::fmt::Result {\n        write!(f, \"{}({})\", self.get_type(), self.get_id())\n    }\n}\n",
    ];
    assert(display@ =~= edge_display_template());
    write_fill(&mut s, &display, e.name.as_str());
    assert(s@ =~= rust_edge_file(*e));
    s
}

impl CodeGenerator<Rust> for EdgeExp {
    open spec fn filename_text(&self) -> Seq<char> {
        snake_text(self.name@)
    }

    open spec fn generated(&self, p: Seq<char>) -> Map<Seq<char>, Option<Seq<char>>> {
        one_file(spec_join_path(p, snake_text(self.name@) + ".rs"@), rust_edge_file(*self))
    }

    fn get_filename(&self) -> (r: String) {
        to_snake_case(self.name.as_str())
    }

    fn aggregate_content(&self, p: &str) -> (r: GenResult<GeneratedCode>) {
        let mut file = CodeGenerator::<Rust>::get_filename(self);
        file.append(".rs");
        let path = join_path(p, file.as_str());
        let s = rust_edge_content(self);
        Ok(single_file(path, s))
    }
}

/// A `match self` over the edge enum with one arm for each edge, or `other` without edges.
pub open spec fn edge_match_or(c: Seq<SchemaStm>, parts: Seq<&str>, other: Seq<char>) -> Seq<char> {
    either(
        has_edges(c),
        "        match self {\n"@ + concat_map(c, on_edges(parts)) + "        }\n"@,
        other,
    )
}

/// The `From` conversion of each edge into the edge type.
pub open spec fn edge_from_template() -> Seq<&'static str> {
    seq![
        "\nimpl<EK> From<",
        "<EK>> for Edge<EK> {\n    fn from(other: ",
        "<EK>) -> Self {\n       Self::",
        "(other)\n    }\n}\n",
    ]
}

/// The `Downcast` implementation for each edge.
pub open spec fn edge_downcast_template() -> Seq<&'static str> {
    seq![
        "\nimpl<'b, NK, EK, S> Downcast<'b, NK, EK, &'b ",
        "<EK>, S> for Edge<EK>\nwhere\n    NK: Key,\n    EK: Key,\n    S: SchemaExt<NK, EK, E = Edge<EK>>\n{\n    fn downcast<'a: 'b>(&'a self) -> SchemaResult<&'a ",
        "<EK>, NK, EK, S> {\n        match self {\n            Edge::",
        "(e) => Ok(e),\n            #[allow(unreachable_patterns)]\n            e => Err(TypedError::DownCastFailed(\"",
        "\".to_string(), e.get_type().to_string()))\n        }\n    }\n}\n",
    ]
}

/// The `DowncastMut` implementation for each edge.
pub open spec fn edge_downcast_mut_template() -> Seq<&'static str> {
    seq![
        "\nimpl<'b, NK, EK, S> DowncastMut<'b, NK, EK, &'b mut ",
        "<EK>, S> for Edge<EK>\nwhere\n    NK: Key,\n    EK: Key,\n    S: SchemaExt<NK, EK, E = Edge<EK>>\n{\n    fn downcast_mut<'a: 'b>(&'a mut self) -> SchemaResult<&'a mut ",
        "<EK>, NK, EK, S> {\n        match self {\n            Edge::",
        "(e) => Ok(e),\n            #[allow(unreachable_patterns)]\n            e => Err(TypedError::DownCastFailed(\"",
        "\".to_string(), e.get_type().to_string()))\n        }\n    }\n}\n",
    ]
}

/// The whole edge.rs of a schema.
pub open spec fn edges_rs_text(c: Seq<SchemaStm>) -> Seq<char> {
    "use super::*;\nuse std::fmt::Debug;\nuse typed_graph::*;\nuse serde::{Serialize, Deserialize};\n"@
        + "\n"@ + "#[derive(Clone, Debug, Serialize, Deserialize)]\n"@ + either(
        has_edges(c),
        "pub enum Edge<EK> {\n"@ + concat_map(c, on_edges(seq!["    ", "(", "<EK>),\n"])) + "}\n"@,
        "pub struct Edge<EK> {\n"@ + "    id: EK\n"@ + "}\n"@,
    ) + "\n"@ + "impl<EK: Key> EdgeExt<EK> for Edge<EK> {}\n"@ + "\n"@
        + "impl<EK> Typed for Edge<EK> {\n"@ + "    type Type = EdgeType;\n"@
        + "    fn get_type(&self) -> EdgeType {\n"@ + edge_match_or(
        c,
        seq!["            Edge::", "(_) => EdgeType::", ",\n"],
        "            EdgeType\n"@,
    ) + "    }\n"@ + "}\n"@ + "\n"@ + "impl<EK: Key> Id<EK> for Edge<EK> {\n"@
        + "    fn get_id(&self) -> EK {\n"@ + edge_match_or(
        c,
        seq!["            Edge::", "(e) => e.get_id(),\n"],
        "        self.id\n"@,
    ) + "    }\n"@ + "\n"@ + "    fn set_id(&mut self, id: EK) {\n"@ + edge_match_or(
        c,
        seq!["            Edge::", "(e) => e.set_id(id),\n"],
        "        self.id = id;\n"@,
    ) + "    }\n"@ + "}\n"@ + concat_map(c, on_edges(edge_from_template())) + concat_map(
        c,
        on_edges(edge_downcast_template()),
    ) + concat_map(c, on_edges(edge_downcast_mut_template())) + "\n"@
        + "impl<EK: std::fmt::Display + Key> std::fmt::Display for Edge<EK> {\n"@
        + "    fn fmt(&self, f: &mut std::fmt::Formatter<'_>) -> std::fmt::Result {\n"@
        + "        write!(f, \"{}({})\", self.get_type(), self.get_id())\n"@ + "    }\n"@ + "}\n"@
}

fn write_edge_match_or(s: &mut String, content: &Vec<SchemaStm>, h: bool, parts: &[&str], other: &str)
    requires
        h == has_edges(content@),
    ensures
        final(s)@ == old(s)@ + edge_match_or(content@, parts@, other@),
{
    let ghost start = s@;
    if h {
        s.append("        match self {\n");
        write_each_edge(s, content, parts);
        s.append("        }\n");
    } else {
        s.append(other);
    }
    assert(s@ =~= start + edge_match_or(content@, parts@, other@));
}

fn write_edges_head(s: &mut String, content: &Vec<SchemaStm>, h: bool)
    requires
        h == has_edges(content@),
    ensures
        final(s)@ == old(s)@ + "use super::*;\nuse std::fmt::Debug;\nuse typed_graph::*;\nuse serde::{Serialize, Deserialize};\n"@
            + "\n"@ + "#[derive(Clone, Debug, Serialize, Deserialize)]\n"@ + either(
            has_edges(content@),
            "pub enum Edge<EK> {\n"@ + concat_map(content@, on_edges(seq!["    ", "(", "<EK>),\n"]))
                + "}\n"@,
            "pub struct Edge<EK> {\n"@ + "    id: EK\n"@ + "}\n"@,
        ),
{
    let ghost start = s@;
    s.append(
        "use super::*;\nuse std::fmt::Debug;\nuse typed_graph::*;\nuse serde::{Serialize, Deserialize};\n",
    );
    s.append("\n");
    s.append("#[derive(Clone, Debug, Serialize, Deserialize)]\n");
    let ghost mid = s@;
    if h {
        s.append("pub enum Edge<EK> {\n");
        write_each_edge(s, content, &["    ", "(", "<EK>),\n"]);
        s.append("}\n");
    } else {
        s.append("pub struct Edge<EK> {\n");
        s.append("    id: EK\n");
        s.append("}\n");
    }
    assert(s@ =~= mid + either(
        has_edges(content@),
        "pub enum Edge<EK> {\n"@ + concat_map(content@, on_edges(seq!["    ", "(", "<EK>),\n"])) + "}\n"@,
        "pub struct Edge<EK> {\n"@ + "    id: EK\n"@ + "}\n"@,
    ));
}

fn write_edges_casts(s: &mut String, content: &Vec<SchemaStm>)
    ensures
        final(s)@ == old(s)@ + concat_map(content@, on_edges(edge_from_template())) + concat_map(
            content@,
            on_edges(edge_downcast_template()),
        ) + concat_map(content@, on_edges(edge_downcast_mut_template())),
{
    let from: [&str; 4] = [
        "\nimpl<EK> From<",
        "<EK>> for Edge<EK> {\n    fn from(other: ",
        "<EK>) -> Self {\n       Self::",
        "(other)\n    }\n}\n",
    ];
    assert(from@ =~= edge_from_template());
    write_each_edge(s, content, &from);
    let down: [&str; 5] = [
        "\nimpl<'b, NK, EK, S> Downcast<'b, NK, EK, &'b ",
        "<EK>, S> for Edge<EK>\nwhere\n    NK: Key,\n    EK: Key,\n    S: SchemaExt<NK, EK, E = Edge<EK>>\n{\n    fn downcast<'a: 'b>(&'a self) -> SchemaResult<&'a ",
        "<EK>, NK, EK, S> {\n        match self {\n            Edge::",
        "(e) => Ok(e),\n            #[allow(unreachable_patterns)]\n            e => Err(TypedError::DownCastFailed(\"",
        "\".to_string(), e.get_type().to_string()))\n        }\n    }\n}\n",
    ];
    assert(down@ =~= edge_downcast_template());
    write_each_edge(s, content, &down);
    let down_mut: [&str; 5] = [
        "\nimpl<'b, NK, EK, S> DowncastMut<'b, NK, EK, &'b mut ",
        "<EK>, S> for Edge<EK>\nwhere\n    NK: Key,\n    EK: Key,\n    S: SchemaExt<NK, EK, E = Edge<EK>>\n{\n    fn downcast_mut<'a: 'b>(&'a mut self) -> SchemaResult<&'a mut ",
        "<EK>, NK, EK, S> {\n        match self {\n            Edge::",
        "(e) => Ok(e),\n            #[allow(unreachable_patterns)]\n            e => Err(TypedError::DownCastFailed(\"",
        "\".to_string(), e.get_type().to_string()))\n        }\n    }\n}\n",
    ];
    assert(down_mut@ =~= edge_downcast_mut_template());
    write_each_edge(s, content, &down_mut);
}

/// The text of edge.rs for a schema with the statements `content`.
pub fn edges_rs_content(content: &Vec<SchemaStm>) -> (r: String)
    ensures
        r@ == edges_rs_text(content@),
{
    let h = any_edges(content);
    let mut s = String::new();
    write_edges_head(&mut s, content, h);
    let ghost a = s@;
    s.append("\n");
    s.append("impl<EK: Key> EdgeExt<EK> for Edge<EK> {}\n");
    s.append("\n");
    s.append("impl<EK> Typed for Edge<EK> {\n");
    s.append("    type Type = EdgeType;\n");
    s.append("    fn get_type(&self) -> EdgeType {\n");
    write_edge_match_or(&mut s, content, h, &["            Edge::", "(_) => EdgeType::", ",\n"], "            EdgeType\n");
    s.append("    }\n");
    s.append("}\n");
    s.append("\n");
    s.append("impl<EK: Key> Id<EK> for Edge<EK> {\n");
    s.append("    fn get_id(&self) -> EK {\n");
    write_edge_match_or(&mut s, content, h, &["            Edge::", "(e) => e.get_id(),\n"], "        self.id\n");
    s.append("    }\n");
    s.append("\n");
    s.append("    fn set_id(&mut self, id: EK) {\n");
    write_edge_match_or(&mut s, content, h, &["            Edge::", "(e) => e.set_id(id),\n"], "        self.id = id;\n");
    s.append("    }\n");
    s.append("}\n");
    let ghost b = s@;
    write_edges_casts(&mut s, content);
    let ghost c = s@;
    s.append("\n");
    s.append("impl<EK: std::fmt::Display + Key> std::fmt::Display for Edge<EK> {\n");
    s.append("    fn fmt(&self, f: &mut std::fmt::Formatter<'_>) -> std::fmt::Result {\n");
    s.append("        write!(f, \"{}({})\", self.get_type(), self.get_id())\n");
    s.append("    }\n");
    s.append("}\n");
    assert(s@ =~= edges_rs_text(content@));
    s
}

/// Add edge.rs, for a schema with the statements `content`, to the files under `schema_folder`.
pub fn write_edges_rs(content: &Vec<SchemaStm>, new_files: &mut GeneratedCode, schema_folder: &str)
    ensures
        final(new_files)@ == spec_add_content(
            old(new_files)@,
            spec_join_path(schema_folder@, "edge.rs"@),
            edges_rs_text(content@),
        ),
{
    let path = join_path(schema_folder, "edge.rs");
    let text = edges_rs_content(content);
    new_files.add_content(path, text);
}

/// The comparisons between each edge and the edge type.
pub open spec fn edge_type_eq_template() -> Seq<&'static str> {
    seq![
        "impl<EK> PartialEq<EdgeType> for ",
        "<EK> {\n    fn eq(&self, ty: &EdgeType) -> bool {\n        matches!(ty, EdgeType::",
        ")\n    }\n}\n\nimpl<EK> PartialEq<",
        "<EK>> for EdgeType {\n    fn eq(&self, other: &",
        "<EK>) -> bool {\n        other.eq(self)\n    }\n}\n",
    ]
}

/// The first part of edge_type.rs: the edge type and the list of all edge types.
pub open spec fn edge_type_rs_head(c: Seq<SchemaStm>) -> Seq<char> {
    "use super::*;\nuse serde::{Serialize, Deserialize};\nuse typed_graph::GenericTypedError;\nuse std::str::FromStr;\n"@
        + "\n"@
        + "#[derive(Clone, Copy, Debug, PartialEq, Hash, Eq, PartialOrd, Ord, Serialize, Deserialize)]\n"@
        + either(
        has_edges(c),
        "pub enum EdgeType {\n"@ + concat_map(c, on_edges(seq!["    ", ",\n"])) + "}\n"@,
        "pub struct EdgeType;\n"@,
    ) + "impl EdgeType {\n"@ + "    pub fn all() -> &'static [EdgeType] {\n"@ + "        &[\n"@
        + concat_map(c, on_edges(seq!["            EdgeType::", ",\n"])) + "            \n"@
        + "        ]\n"@ + "    }\n"@ + "}\n"@
}

/// The comparisons of edge_type.rs.
pub open spec fn edge_type_rs_eq(c: Seq<SchemaStm>) -> Seq<char> {
    "\n"@ + "impl<EK> PartialEq<EdgeType> for Edge<EK> {\n"@
        + "    fn eq(&self, _other: &EdgeType) -> bool {\n"@ + either(
        has_edges(c),
        "        match (_other, self) {\n"@ + concat_map(
            c,
            on_edges(seq!["           (EdgeType::", ", Edge::", "(_)) => true,\n"]),
        ) + "           #[allow(unreachable_patterns)]\n"@ + "           _ => false\n"@
            + "        }\n"@,
        "       true\n"@,
    ) + "    }\n"@ + "}\n"@ + "\n"@ + "impl<EK> PartialEq<Edge<EK>> for EdgeType {\n"@
        + "    fn eq(&self, other: &Edge<EK>) -> bool {\n"@ + "        other.eq(self)\n"@
        + "    }\n"@ + "}\n"@ + "\n"@ + concat_map(c, on_edges(edge_type_eq_template()))
}

/// The `Display` and `FromStr` implementations of edge_type.rs.
pub open spec fn edge_type_rs_text_forms(c: Seq<SchemaStm>) -> Seq<char> {
    "\n"@ + "impl std::fmt::Display for EdgeType {\n"@
        + "    fn fmt(&self, f: &mut std::fmt::Formatter<'_>) -> std::fmt::Result {\n"@ + either(
        has_edges(c),
        "        match self {\n"@ + concat_map(
            c,
            on_edges(seq!["            EdgeType::", " => write!(f, \"", "\"),\n"]),
        ) + "        }\n"@,
        "write!(f, \"EdgeType\")\n"@,
    ) + "    }\n"@ + "}\n"@ + "\n"@ + "impl FromStr for EdgeType {\n"@
        + "    type Err = GenericTypedError<String, String>;\n"@ + "\n"@
        + "    fn from_str(value: &str) -> Result<Self, Self::Err> {\n"@ + "        match value {\n"@
        + concat_map(c, on_edges(seq!["            \"", "\" => Ok(EdgeType::", "),\n"]))
        + "            _ => Err(GenericTypedError::UnrecognizedEdgeType(value.to_string(), EdgeType::all().into_iter().map(ToString::to_string).collect()))\n"@
        + "        }\n"@ + "    }\n"@ + "}\n"@
}

/// The whole edge_type.rs of a schema.
pub open spec fn edge_type_rs_text(c: Seq<SchemaStm>) -> Seq<char> {
    edge_type_rs_head(c) + edge_type_rs_eq(c) + edge_type_rs_text_forms(c)
}

fn write_edge_type_head(s: &mut String, content: &Vec<SchemaStm>, h: bool)
    requires
        h == has_edges(content@),
    ensures
        final(s)@ == old(s)@ + edge_type_rs_head(content@),
{
    let ghost start = s@;
    s.append(
        "use super::*;\nuse serde::{Serialize, Deserialize};\nuse typed_graph::GenericTypedError;\nuse std::str::FromStr;\n",
    );
    s.append("\n");
    s.append(
        "#[derive(Clone, Copy, Debug, PartialEq, Hash, Eq, PartialOrd, Ord, Serialize, Deserialize)]\n",
    );
    if h {
        s.append("pub enum EdgeType {\n");
        write_each_edge(s, content, &["    ", ",\n"]);
        s.append("}\n");
    } else {
        s.append("pub struct EdgeType;\n");
    }
    s.append("impl EdgeType {\n");
    s.append("    pub fn all() -> &'static [EdgeType] {\n");
    s.append("        &[\n");
    write_each_edge(s, content, &["            EdgeType::", ",\n"]);
    s.append("            \n");
    s.append("        ]\n");
    s.append("    }\n");
    s.append("}\n");
    assert(s@ =~= start + edge_type_rs_head(content@));
}

fn write_edge_type_eq(s: &mut String, content: &Vec<SchemaStm>, h: bool)
    requires
        h == has_edges(content@),
    ensures
        final(s)@ == old(s)@ + edge_type_rs_eq(content@),
{
    let ghost start = s@;
    s.append("\n");
    s.append("impl<EK> PartialEq<EdgeType> for Edge<EK> {\n");
    s.append("    fn eq(&self, _other: &EdgeType) -> bool {\n");
    if h {
        s.append("        match (_other, self) {\n");
        write_each_edge(s, content, &["           (EdgeType::", ", Edge::", "(_)) => true,\n"]);
        s.append("           #[allow(unreachable_patterns)]\n");
        s.append("           _ => false\n");
        s.append("        }\n");
    } else {
        s.append("       true\n");
    }
    s.append("    }\n");
    s.append("}\n");
    s.append("\n");
    s.append("impl<EK> PartialEq<Edge<EK>> for EdgeType {\n");
    s.append("    fn eq(&self, other: &Edge<EK>) -> bool {\n");
    s.append("        other.eq(self)\n");
    s.append("    }\n");
    s.append("}\n");
    s.append("\n");
    let ghost mid = s@;
    let eq: [&str; 5] = [
        "impl<EK> PartialEq<EdgeType> for ",
        "<EK> {\n    fn eq(&self, ty: &EdgeType) -> bool {\n        matches!(ty, EdgeType::",
        ")\n    }\n}\n\nimpl<EK> PartialEq<",
        "<EK>> for EdgeType {\n    fn eq(&self, other: &",
        "<EK>) -> bool {\n        other.eq(self)\n    }\n}\n",
    ];
    assert(eq@ =~= edge_type_eq_template());
    write_each_edge(s, content, &eq);
    assert(s@ =~= start + edge_type_rs_eq(content@));
}

fn write_edge_type_text_forms(s: &mut String, content: &Vec<SchemaStm>, h: bool)
    requires
        h == has_edges(content@),
    ensures
        final(s)@ == old(s)@ + edge_type_rs_text_forms(content@),
{
    let ghost start = s@;
    s.append("\n");
    s.append("impl std::fmt::Display for EdgeType {\n");
    s.append("    fn fmt(&self, f: &mut std::fmt::Formatter<'_>) -> std::fmt::Result {\n");
    if h {
        s.append("        match self {\n");
        write_each_edge(s, content, &["            EdgeType::", " => write!(f, \"", "\"),\n"]);
        s.append("        }\n");
    } else {
        s.append("write!(f, \"EdgeType\")\n");
    }
    s.append("    }\n");
    s.append("}\n");
    s.append("\n");
    s.append("impl FromStr for EdgeType {\n");
    s.append("    type Err = GenericTypedError<String, String>;\n");
    s.append("\n");
    s.append("    fn from_str(value: &str) -> Result<Self, Self::Err> {\n");
    s.append("        match value {\n");
    write_each_edge(s, content, &["            \"", "\" => Ok(EdgeType::", "),\n"]);
    s.append(
        "            _ => Err(GenericTypedError::UnrecognizedEdgeType(value.to_string(), EdgeType::all().into_iter().map(ToString::to_string).collect()))\n",
    );
    s.append("        }\n");
    s.append("    }\n");
    s.append("}\n");
    assert(s@ =~= start + edge_type_rs_text_forms(content@));
}

/// The text of edge_type.rs for a schema with the statements `content`.
pub fn edge_type_rs_content(content: &Vec<SchemaStm>) -> (r: String)
    ensures
        r@ == edge_type_rs_text(content@),
{
    let h = any_edges(content);
    let mut s = String::new();
    write_edge_type_head(&mut s, content, h);
    write_edge_type_eq(&mut s, content, h);
    write_edge_type_text_forms(&mut s, content, h);
    assert(s@ =~= edge_type_rs_text(content@));
    s
}

/// Add edge_type.rs, for a schema with the statements `content`, to the files under `schema_folder`.
pub fn write_edge_type_rs(content: &Vec<SchemaStm>, new_files: &mut GeneratedCode, schema_folder: &str)
    ensures
        final(new_files)@ == spec_add_content(
            old(new_files)@,
            spec_join_path(schema_folder@, "edge_type.rs"@),
            edge_type_rs_text(content@),
        ),
{
    let path = join_path(schema_folder, "edge_type.rs");
    let text = edge_type_rs_content(content);
    new_files.add_content(path, text);
}

} // verus!
