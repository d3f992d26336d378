use vstd::prelude::*;
use vstd::string::*;

use crate::code_generator::{CodeGenerator, Rust};
use crate::error::GenResult;
use crate::generated_code::{spec_add_content, spec_create_file, spec_merge, GeneratedCode};
use crate::paths::{join_path, spec_join_path};
use crate::project::str_equal;
use crate::rust_items::{one_file, rust_enum_file};
use crate::rust_node::{rust_node_file, rust_struct_file};
use crate::rust_schema_edges::{
    edge_type_rs_text, edges_rs_text, rust_edge_file, write_edge_type_rs, write_edges_rs,
};
use crate::rust_schema_nodes::{
    node_type_rs_text, nodes_rs_text, write_node_type_rs, write_nodes_rs,
};
use crate::rust_endpoints::{endpoint_files, write_edge_endpoints};
use crate::schema::{EndPoint, Schema, SchemaStm};
use crate::text::{
    concat_map, decimal_text, dots_to_underscores, fill, fill_holes, lemma_concat_map_all,
    lemma_concat_map_step, replace_dots, snake_text, str_texts, texts, to_snake_case, write_decimal,
    write_fill, write_holes,
};

verus! {

/// The name a schema version gets in generated code: its dots become underscores.
pub open spec fn schema_name_text(version: Seq<char>) -> Seq<char> {
    dots_to_underscores(version)
}

/// The match arms of `allow_edge` for one end point of the edge `edge_name`: the limits on
/// incoming and outgoing edges where there are any, then the allowed pair.
pub open spec fn endpoint_arms(edge_name: Seq<char>) -> spec_fn(EndPoint) -> Seq<char> {
    |ep: EndPoint|
        {
            let holes = seq![edge_name, ep.source@, ep.target@];
            (match ep.incoming_quantity.bounds {
                Some(b) => fill_holes(
                    seq![
                        "            (EdgeType::",
                        ", NodeType::",
                        ", NodeType::",
                        ") if incoming_edge_count > ",
                        " => Err(DisAllowedEdge::ToManyIncoming),\n",
                    ],
                    holes.push(decimal_text(b.1 as nat)),
                ),
                None => Seq::empty(),
            }) + (match ep.outgoing_quantity.bounds {
                Some(b) => fill_holes(
                    seq![
                        "            (EdgeType::",
                        ", NodeType::",
                        ", NodeType::",
                        ") if outgoing_edge_count > ",
                        " => Err(DisAllowedEdge::ToManyOutgoing),\n",
                    ],
                    holes.push(decimal_text(b.1 as nat)),
                ),
                None => Seq::empty(),
            }) + fill_holes(
                seq!["            (EdgeType::", ", NodeType::", ", NodeType::", ") => Ok(()),\n"],
                holes,
            )
        }
}

/// The match arms of `allow_edge` for the end points of each edge statement.
pub open spec fn edge_arms() -> spec_fn(SchemaStm) -> Seq<char> {
    |st: SchemaStm|
        match st {
            SchemaStm::Edge(e) => concat_map(e.endpoints@, endpoint_arms(e.name@)),
            _ => Seq::empty(),
        }
}

/// A line listing one parent schema.
pub open spec fn parent_line() -> spec_fn(Seq<char>) -> Seq<char> {
    |p: Seq<char>| "            \""@ + p + "\",\n"@
}

/// The start of schema.rs, up to the list of parents.
pub open spec fn schema_impl_head_template() -> Seq<&'static str> {
    seq![
        "use super::*;\nuse std::fmt::Debug;\nuse std::marker::PhantomData;\nuse typed_graph::*;\nuse serde::{Serialize, Deserialize};\nuse typed_graph::GenericTypedError;\nuse std::str::FromStr;\n\n#[allow(unused)]\npub type ",
        "Graph<NK, EK> = TypedGraph<NK, EK, ",
        "<NK, EK>>;\n\npub const ",
        "_NAME: &'static str = \"",
        "\";\n\n#[derive(Clone, Debug, Serialize, Deserialize, PartialEq, Eq, Hash)]\n#[serde(bound = \"NK: Clone, EK: Clone\")]\n#[serde(try_from = \"String\")]\n#[serde(into = \"String\")]\npub struct ",
        "<NK, EK> {\n    ek: PhantomData<EK>,\n    nk: PhantomData<NK>,\n}\n\nimpl<NK, EK> ",
        "<NK, EK> {\n    pub const fn name() -> &'static str {\n        \"",
        "\"\n    }\n\n    pub const fn parents() -> &'static [&'static str] {\n        &[\n",
    ]
}

/// The part of schema.rs between the parents and the arms of `allow_edge`.
pub open spec fn schema_impl_middle_template() -> Seq<&'static str> {
    seq![
        "        ]\n    }\n}\n\nimpl<NK, EK> SchemaExt<NK, EK> for ",
        "<NK, EK>\nwhere\n   NK: Key,\n   EK: Key\n{\n   type N = Node<NK>;\n   type E = Edge<EK>;\n\n    fn name(&self) -> String {\n        self.to_string()\n    }\n\n    fn allow_node(&self, _node_ty: NodeType) -> Result<(), DisAllowedNode> {\n        Ok(())\n    }\n\n    #[allow(unused_variables)]\n    fn allow_edge(&self, outgoing_edge_count: usize, incoming_edge_count: usize, edge_ty: EdgeType, source_ty: NodeType, target_ty: NodeType) -> Result<(), DisAllowedEdge> {\n        match (edge_ty, source_ty, target_ty) {\n",
    ]
}

/// The end of schema.rs, after the arms of `allow_edge`.
pub open spec fn schema_impl_tail_template() -> Seq<&'static str> {
    seq![
        "            #[allow(unreachable_patterns)]\n            _ => Err(DisAllowedEdge::InvalidType)\n        }\n    }\n}\n\nimpl<NK, EK> Default for ",
        "<NK, EK> {\n    fn default() -> Self {\n        ",
        " {\n            ek: PhantomData,\n            nk: PhantomData\n        }\n    }\n}\n\nimpl<NK, EK> TryFrom<String> for ",
        "<NK, EK> {\n    type Error = GenericTypedError<String, String>;\n\n    fn try_from(value: String) -> Result<Self, Self::Error> {\n        value.parse()\n    }\n}\n\nimpl<NK, EK> FromStr for ",
        "<NK, EK> {\n    type Err = GenericTypedError<String, String>;\n\n    fn from_str(value: &str) -> Result<Self, Self::Err> {\n        if value != \"",
        "\" {\n            return Err(GenericTypedError::InvalidSchemaName(value.to_string(), \"",
        "\".to_string()));\n        }\n        Ok(",
        "::default())\n    }\n}\n\nimpl<NK, EK> Into<String> for ",
        "<NK, EK> {\n    fn into(self) -> String {\n        self.to_string()\n    }\n}\n\nimpl<NK, EK> ToString for ",
        "<NK, EK> {\n    fn to_string(&self) -> String {\n        \"",
        "\".to_string()\n    }\n}\n",
    ]
}

/// The whole schema.rs of a schema whose parents are `parents`.
pub open spec fn schema_impl_text(schema: Schema, parents: Seq<Seq<char>>) -> Seq<char> {
    let n = schema_name_text(schema.version@);
    let v = schema.version@;
    fill_holes(schema_impl_head_template(), seq![n, n, n, v, n, n, v]) + concat_map(
        parents,
        parent_line(),
    ) + fill(schema_impl_middle_template(), n) + concat_map(schema.content@, edge_arms())
        + fill_holes(schema_impl_tail_template(), seq![n, n, n, n, v, v, n, n, n, v])
}

fn write_endpoint_arms(s: &mut String, edge_name: &str, endpoints: &Vec<EndPoint>)
    ensures
        final(s)@ == old(s)@ + concat_map(endpoints@, endpoint_arms(edge_name@)),
{
    let n = endpoints.len();
    let mut i: usize = 0;
    while i < n
        invariant
            n == endpoints@.len(),
            i <= n,
            s@ == old(s)@ + concat_map(endpoints@.subrange(0, i as int), endpoint_arms(edge_name@)),
        decreases n - i,
    {
        proof {
            lemma_concat_map_step(endpoints@, i as int, endpoint_arms(edge_name@));
        }
        let ghost before = s@;
        let ep = &endpoints[i];
        let holes = [edge_name, ep.source.as_str(), ep.target.as_str()];
        let ghost hv = seq![edge_name@, ep.source@, ep.target@];
        assert(str_texts(holes@) =~= hv);
        match ep.incoming_quantity.bounds {
            Some(b) => {
                let mut upper = String::new();
                write_decimal(&mut upper, b.1 as u64);
                assert(upper@ =~= decimal_text(b.1 as nat));
                let h4 = [edge_name, ep.source.as_str(), ep.target.as_str(), upper.as_str()];
                assert(str_texts(h4@) =~= hv.push(decimal_text(b.1 as nat)));
                let parts = [
                    "            (EdgeType::",
                    ", NodeType::",
                    ", NodeType::",
                    ") if incoming_edge_count > ",
                    " => Err(DisAllowedEdge::ToManyIncoming),\n",
                ];
                write_holes(s, &parts, &h4);
            },
            None => {},
        }
        let ghost mid = s@;
        match ep.outgoing_quantity.bounds {
            Some(b) => {
                let mut upper = String::new();
                write_decimal(&mut upper, b.1 as u64);
                assert(upper@ =~= decimal_text(b.1 as nat));
                let h4 = [edge_name, ep.source.as_str(), ep.target.as_str(), upper.as_str()];
                assert(str_texts(h4@) =~= hv.push(decimal_text(b.1 as nat)));
                let parts = [
                    "            (EdgeType::",
                    ", NodeType::",
                    ", NodeType::",
                    ") if outgoing_edge_count > ",
                    " => Err(DisAllowedEdge::ToManyOutgoing),\n",
                ];
                write_holes(s, &parts, &h4);
            },
            None => {},
        }
        let ghost mid2 = s@;
        let ok_parts = ["            (EdgeType::", ", NodeType::", ", NodeType::", ") => Ok(()),\n"];
        write_holes(s, &ok_parts, &holes);
        proof {
            let f = endpoint_arms(edge_name@);
            assert(ok_parts@ =~= seq!["            (EdgeType::", ", NodeType::", ", NodeType::", ") => Ok(()),\n"]);
            assert(s@ =~= before + f(endpoints@[i as int]));
        }
        i = i + 1;
    }
    proof {
        lemma_concat_map_all(endpoints@, endpoint_arms(edge_name@));
    }
}

fn write_edge_arms(s: &mut String, content: &Vec<SchemaStm>)
    ensures
        final(s)@ == old(s)@ + concat_map(content@, edge_arms()),
{
    let n = content.len();
    let mut i: usize = 0;
    while i < n
        invariant
            n == content@.len(),
            i <= n,
            s@ == old(s)@ + concat_map(content@.subrange(0, i as int), edge_arms()),
        decreases n - i,
    {
        proof {
            lemma_concat_map_step(content@, i as int, edge_arms());
        }
        let ghost before = s@;
        match &content[i] {
            SchemaStm::Edge(e) => {
                write_endpoint_arms(s, e.name.as_str(), &e.endpoints);
            },
            _ => {},
        }
        assert(s@ =~= before + edge_arms()(content@[i as int]));
        i = i + 1;
    }
    proof {
        lemma_concat_map_all(content@, edge_arms());
    }
}

fn write_parent_lines(s: &mut String, parents: &Vec<String>)
    ensures
        final(s)@ == old(s)@ + concat_map(texts(parents@), parent_line()),
{
    let n = parents.len();
    let mut i: usize = 0;
    while i < n
        invariant
            n == parents@.len(),
            i <= n,
            s@ == old(s)@ + concat_map(texts(parents@).subrange(0, i as int), parent_line()),
        decreases n - i,
    {
        proof {
            lemma_concat_map_step(texts(parents@), i as int, parent_line());
        }
        let ghost before = s@;
        s.append("            \"");
        s.append(parents[i].as_str());
        s.append("\",\n");
        assert(s@ =~= before + parent_line()(parents@[i as int]@));
        i = i + 1;
    }
    proof {
        lemma_concat_map_all(texts(parents@), parent_line());
    }
}

/// The text of schema.rs for `schema`, whose parent versions are `parents`.
pub fn schema_impl_content(schema: &Schema, parents: &Vec<String>) -> (r: String)
    ensures
        r@ == schema_impl_text(*schema, texts(parents@)),
{
    let name = replace_dots(schema.version.as_str());
    let n = name.as_str();
    let v = schema.version.as_str();
    let mut s = String::new();
    let head = [
        "use super::*;\nuse std::fmt::Debug;\nuse std::marker::PhantomData;\nuse typed_graph::*;\nuse serde::{Serialize, Deserialize};\nuse typed_graph::GenericTypedError;\nuse std::str::FromStr;\n\n#[allow(unused)]\npub type ",
        "Graph<NK, EK> = TypedGraph<NK, EK, ",
        "<NK, EK>>;\n\npub const ",
        "_NAME: &'static str = \"",
        "\";\n\n#[derive(Clone, Debug, Serialize, Deserialize, PartialEq, Eq, Hash)]\n#[serde(bound = \"NK: Clone, EK: Clone\")]\n#[serde(try_from = \"String\")]\n#[serde(into = \"String\")]\npub struct ",
        "<NK, EK> {\n    ek: PhantomData<EK>,\n    nk: PhantomData<NK>,\n}\n\nimpl<NK, EK> ",
        "<NK, EK> {\n    pub const fn name() -> &'static str {\n        \"",
        "\"\n    }\n\n    pub const fn parents() -> &'static [&'static str] {\n        &[\n",
    ];
    let head_holes = [n, n, n, v, n, n, v];
    assert(head@ =~= schema_impl_head_template());
    assert(str_texts(head_holes@) =~= seq![name@, name@, name@, v@, name@, name@, v@]);
    write_holes(&mut s, &head, &head_holes);
    write_parent_lines(&mut s, parents);
    let middle = [
        "        ]\n    }\n}\n\nimpl<NK, EK> SchemaExt<NK, EK> for ",
        "<NK, EK>\nwhere\n   NK: Key,\n   EK: Key\n{\n   type N = Node<NK>;\n   type E = Edge<EK>;\n\n    fn name(&self) -> String {\n        self.to_string()\n    }\n\n    fn allow_node(&self, _node_ty: NodeType) -> Result<(), DisAllowedNode> {\n        Ok(())\n    }\n\n    #[allow(unused_variables)]\n    fn allow_edge(&self, outgoing_edge_count: usize, incoming_edge_count: usize, edge_ty: EdgeType, source_ty: NodeType, target_ty: NodeType) -> Result<(), DisAllowedEdge> {\n        match (edge_ty, source_ty, target_ty) {\n",
    ];
    assert(middle@ =~= schema_impl_middle_template());
    write_fill(&mut s, &middle, n);
    write_edge_arms(&mut s, &schema.content);
    let tail = [
        "            #[allow(unreachable_patterns)]\n            _ => Err(DisAllowedEdge::InvalidType)\n        }\n    }\n}\n\nimpl<NK, EK> Default for ",
        "<NK, EK> {\n    fn default() -> Self {\n        ",
        " {\n            ek: PhantomData,\n            nk: PhantomData\n        }\n    }\n}\n\nimpl<NK, EK> TryFrom<String> for ",
        "<NK, EK> {\n    type Error = GenericTypedError<String, String>;\n\n    fn try_from(value: String) -> Result<Self, Self::Error> {\n        value.parse()\n    }\n}\n\nimpl<NK, EK> FromStr for ",
        "<NK, EK> {\n    type Err = GenericTypedError<String, String>;\n\n    fn from_str(value: &str) -> Result<Self, Self::Err> {\n        if value != \"",
        "\" {\n            return Err(GenericTypedError::InvalidSchemaName(value.to_string(), \"",
        "\".to_string()));\n        }\n        Ok(",
        "::default())\n    }\n}\n\nimpl<NK, EK> Into<String> for ",
        "<NK, EK> {\n    fn into(self) -> String {\n        self.to_string()\n    }\n}\n\nimpl<NK, EK> ToString for ",
        "<NK, EK> {\n    fn to_string(&self) -> String {\n        \"",
        "\".to_string()\n    }\n}\n",
    ];
    let tail_holes = [n, n, n, n, v, v, n, n, n, v];
    assert(tail@ =~= schema_impl_tail_template());
    assert(str_texts(tail_holes@) =~= seq![name@, name@, name@, name@, v@, v@, name@, name@, name@, v@]);
    write_holes(&mut s, &tail, &tail_holes);
    assert(s@ =~= schema_impl_text(*schema, texts(parents@)));
    s
}

/// Add schema.rs to the files under `schema_folder`.
pub fn write_schema_impl_rs(
    schema: &Schema,
    parents: &Vec<String>,
    new_files: &mut GeneratedCode,
    schema_folder: &str,
)
    ensures
        final(new_files)@ == spec_add_content(
            old(new_files)@,
            spec_join_path(schema_folder@, "schema.rs"@),
            schema_impl_text(*schema, texts(parents@)),
        ),
{
    let path = join_path(schema_folder, "schema.rs");
    let text = schema_impl_content(schema, parents);
    new_files.add_content(path, text);
}

/// Which module folder a statement is written to (nodes, structs, edges, types), and its name.
pub open spec fn stm_module(st: SchemaStm) -> Option<(nat, Seq<char>)> {
    match st {
        SchemaStm::Node(n) => Some((0nat, n.name@)),
        SchemaStm::Struct(n) => Some((1nat, n.name@)),
        SchemaStm::Edge(n) => Some((2nat, n.name@)),
        SchemaStm::Enum(n) => Some((3nat, n.name@)),
        SchemaStm::Import(_) => None,
    }
}

/// The lines of a module file that bring in each statement of module folder `k`.
pub open spec fn mod_lines(k: nat) -> spec_fn(SchemaStm) -> Seq<char> {
    |st: SchemaStm|
        match stm_module(st) {
            Some(m) => if m.0 == k {
                fill(seq!["mod ", ";\n#[allow(unused)]\npub use ", "::*;\n"], snake_text(m.1))
            } else {
                Seq::empty()
            },
            None => Seq::empty(),
        }
}

/// The mod.rs at the root of a generated schema.
pub open spec fn schema_mod_text() -> Seq<char> {
    "mod node;\npub mod structs;\nmod edge;\npub mod types;\npub mod nodes;\npub mod edges;\nmod edge_type;\nmod node_type;\nmod schema;\nmod imports;\n\n#[allow(unused)]\npub use schema::*;\n#[allow(unused)]\npub use edge_type::*;\n#[allow(unused)]\npub use node_type::*;\n#[allow(unused)]\npub use node::*;\n#[allow(unused)]\npub use structs::*;\n#[allow(unused)]\npub use edge::*;\n#[allow(unused)]\npub use nodes::*;\n#[allow(unused)]\npub use edges::*;\n#[allow(unused)]\npub use types::*;\n#[allow(unused)]\npub use imports::*;\n#[allow(unused)]\npub use super::imports::*;\n"@
}

/// The folders of a generated schema: the schema folder, then those of nodes, structs, edges and types.
pub struct SchemaFolders {
    pub schema: String,
    pub nodes: String,
    pub structs: String,
    pub edges: String,
    pub types: String,
}

/// The paths of the folders of a generated schema.
pub struct FolderPaths {
    pub schema: Seq<char>,
    pub nodes: Seq<char>,
    pub structs: Seq<char>,
    pub edges: Seq<char>,
    pub types: Seq<char>,
}

impl View for SchemaFolders {
    type V = FolderPaths;

    open spec fn view(&self) -> FolderPaths {
        FolderPaths {
            schema: self.schema@,
            nodes: self.nodes@,
            structs: self.structs@,
            edges: self.edges@,
            types: self.types@,
        }
    }
}

/// The folders a schema of version `version` is generated into, under `p`.
pub open spec fn schema_folder_paths(version: Seq<char>, p: Seq<char>) -> FolderPaths {
    let root = spec_join_path(p, schema_folder_name(version));
    FolderPaths {
        schema: root,
        nodes: spec_join_path(root, "nodes"@),
        structs: spec_join_path(root, "structs"@),
        edges: spec_join_path(root, "edges"@),
        types: spec_join_path(root, "types"@),
    }
}

/// The files after the module files of a schema were added.
pub open spec fn mod_files(
    files: Map<Seq<char>, Option<Seq<char>>>,
    c: Seq<SchemaStm>,
    f: FolderPaths,
) -> Map<Seq<char>, Option<Seq<char>>> {
    let a = spec_add_content(files, spec_join_path(f.nodes, "mod.rs"@), concat_map(c, mod_lines(0)));
    let b = spec_add_content(a, spec_join_path(f.structs, "mod.rs"@), concat_map(c, mod_lines(1)));
    let d = spec_add_content(b, spec_join_path(f.edges, "mod.rs"@), concat_map(c, mod_lines(2)));
    let e = spec_add_content(d, spec_join_path(f.types, "mod.rs"@), concat_map(c, mod_lines(3)));
    let g = spec_create_file(e, spec_join_path(f.schema, "imports.rs"@));
    spec_add_content(g, spec_join_path(f.schema, "mod.rs"@), schema_mod_text())
}

fn write_mod_lines(s: &mut String, content: &Vec<SchemaStm>, k: u8)
    requires
        k < 4,
    ensures
        final(s)@ == old(s)@ + concat_map(content@, mod_lines(k as nat)),
{
    let n = content.len();
    let mut i: usize = 0;
    while i < n
        invariant
            n == content@.len(),
            i <= n,
            k < 4,
            s@ == old(s)@ + concat_map(content@.subrange(0, i as int), mod_lines(k as nat)),
        decreases n - i,
    {
        proof {
            lemma_concat_map_step(content@, i as int, mod_lines(k as nat));
        }
        let ghost before = s@;
        let entry: Option<(u8, &String)> = match &content[i] {
            SchemaStm::Node(x) => Some((0u8, &x.name)),
            SchemaStm::Struct(x) => Some((1u8, &x.name)),
            SchemaStm::Edge(x) => Some((2u8, &x.name)),
            SchemaStm::Enum(x) => Some((3u8, &x.name)),
            SchemaStm::Import(_) => None,
        };
        match entry {
            Some((m, name)) => {
                if m == k {
                    let file = to_snake_case(name.as_str());
                    write_fill(s, &["mod ", ";\n#[allow(unused)]\npub use ", "::*;\n"], file.as_str());
                }
            },
            None => {},
        }
        assert(s@ =~= before + mod_lines(k as nat)(content@[i as int]));
        i = i + 1;
    }
    proof {
        lemma_concat_map_all(content@, mod_lines(k as nat));
    }
}

/// Add the module files of a schema: one for each module folder, the root mod.rs and an
/// empty imports.rs.
pub fn write_mod(content: &Vec<SchemaStm>, new_files: &mut GeneratedCode, folders: &SchemaFolders)
    ensures
        final(new_files)@ == mod_files(old(new_files)@, content@, folders@),
{
    let mut nodes_mod = String::new();
    write_mod_lines(&mut nodes_mod, content, 0);
    let mut structs_mod = String::new();
    write_mod_lines(&mut structs_mod, content, 1);
    let mut edges_mod = String::new();
    write_mod_lines(&mut edges_mod, content, 2);
    let mut types_mod = String::new();
    write_mod_lines(&mut types_mod, content, 3);
    new_files.add_content(join_path(folders.nodes.as_str(), "mod.rs"), nodes_mod);
    new_files.add_content(join_path(folders.structs.as_str(), "mod.rs"), structs_mod);
    new_files.add_content(join_path(folders.edges.as_str(), "mod.rs"), edges_mod);
    new_files.add_content(join_path(folders.types.as_str(), "mod.rs"), types_mod);
    new_files.create_file(join_path(folders.schema.as_str(), "imports.rs"));
    let schema_mod = String::from_str(
        "mod node;\npub mod structs;\nmod edge;\npub mod types;\npub mod nodes;\npub mod edges;\nmod edge_type;\nmod node_type;\nmod schema;\nmod imports;\n\n#[allow(unused)]\npub use schema::*;\n#[allow(unused)]\npub use edge_type::*;\n#[allow(unused)]\npub use node_type::*;\n#[allow(unused)]\npub use node::*;\n#[allow(unused)]\npub use structs::*;\n#[allow(unused)]\npub use edge::*;\n#[allow(unused)]\npub use nodes::*;\n#[allow(unused)]\npub use edges::*;\n#[allow(unused)]\npub use types::*;\n#[allow(unused)]\npub use imports::*;\n#[allow(unused)]\npub use super::imports::*;\n",
    );
    new_files.add_content(join_path(folders.schema.as_str(), "mod.rs"), schema_mod);
}

/// The Rust file of one statement, in the folder of its kind; imports give none.
pub open spec fn stm_files(st: SchemaStm, f: FolderPaths) -> Map<Seq<char>, Option<Seq<char>>> {
    match st {
        SchemaStm::Node(n) => one_file(
            spec_join_path(f.nodes, snake_text(n.name@) + ".rs"@),
            rust_node_file(n),
        ),
        SchemaStm::Struct(n) => one_file(
            spec_join_path(f.structs, snake_text(n.name@) + ".rs"@),
            rust_struct_file(n),
        ),
        SchemaStm::Edge(n) => one_file(
            spec_join_path(f.edges, snake_text(n.name@) + ".rs"@),
            rust_edge_file(n),
        ),
        SchemaStm::Enum(n) => one_file(
            spec_join_path(f.types, snake_text(n.name@) + ".rs"@),
            rust_enum_file(n),
        ),
        SchemaStm::Import(_) => Map::empty(),
    }
}

/// The files after the Rust file of each statement was merged in, in order.
pub open spec fn content_files(
    files: Map<Seq<char>, Option<Seq<char>>>,
    c: Seq<SchemaStm>,
    f: FolderPaths,
) -> Map<Seq<char>, Option<Seq<char>>>
    decreases c.len(),
{
    if c.len() == 0 {
        files
    } else {
        spec_merge(content_files(files, c.drop_last(), f), stm_files(c.last(), f))
    }
}

/// Add the Rust file of each statement to the folder of its kind.
pub fn write_content(content: &Vec<SchemaStm>, new_files: &mut GeneratedCode, folders: &SchemaFolders) -> (r:
    GenResult<()>)
    ensures
        r is Ok,
        final(new_files)@ == content_files(old(new_files)@, content@, folders@),
{
    let n = content.len();
    let mut i: usize = 0;
    while i < n
        invariant
            n == content@.len(),
            i <= n,
            new_files@ == content_files(old(new_files)@, content@.subrange(0, i as int), folders@),
        decreases n - i,
    {
        proof {
            assert(content@.subrange(0, i + 1).drop_last() =~= content@.subrange(0, i as int));
        }
        let added = match &content[i] {
            SchemaStm::Node(x) => CodeGenerator::<Rust>::aggregate_content(x, folders.nodes.as_str()),
            SchemaStm::Struct(x) => CodeGenerator::<Rust>::aggregate_content(
                x,
                folders.structs.as_str(),
            ),
            SchemaStm::Edge(x) => CodeGenerator::<Rust>::aggregate_content(x, folders.edges.as_str()),
            SchemaStm::Enum(x) => CodeGenerator::<Rust>::aggregate_content(x, folders.types.as_str()),
            SchemaStm::Import(_) => Ok(GeneratedCode::new()),
        };
        match added {
            Ok(g) => {
                assert(g@ == stm_files(content@[i as int], folders@));
                new_files.append(g);
            },
            Err(e) => {
                return Err(e);
            },
        }
        i = i + 1;
    }
    proof {
        assert(content@.subrange(0, n as int) =~= content@);
    }
    Ok(())
}

/// The name of the folder a schema is generated into.
pub open spec fn schema_folder_name(version: Seq<char>) -> Seq<char> {
    snake_text(schema_name_text(version))
}

/// The name of the folder a schema is generated into: its version with dots as
/// underscores, in snake case.
pub fn schema_filename(schema: &Schema) -> (r: String)
    ensures
        r@ == schema_folder_name(schema.version@),
{
    let name = replace_dots(schema.version.as_str());
    to_snake_case(name.as_str())
}

/// The folders a schema is generated into, under `p`.
pub fn schema_folders(schema: &Schema, p: &str) -> (r: SchemaFolders)
    ensures
        r@ == schema_folder_paths(schema.version@, p@),
        r.schema@ == spec_join_path(p@, schema_folder_name(schema.version@)),
        r.nodes@ == spec_join_path(r.schema@, "nodes"@),
        r.structs@ == spec_join_path(r.schema@, "structs"@),
        r.edges@ == spec_join_path(r.schema@, "edges"@),
        r.types@ == spec_join_path(r.schema@, "types"@),
{
    let name = schema_filename(schema);
    let root = join_path(p, name.as_str());
    let nodes = join_path(root.as_str(), "nodes");
    let structs = join_path(root.as_str(), "structs");
    let edges = join_path(root.as_str(), "edges");
    let types = join_path(root.as_str(), "types");
    SchemaFolders { schema: root, nodes, structs, edges, types }
}

/// Every file generated for a schema in the given folders, in the order they are added:
/// the statements, node.rs, node_type.rs, edge.rs, edge_type.rs, the module files and schema.rs.
pub open spec fn schema_files(schema: Schema, parents: Seq<Seq<char>>, f: FolderPaths) -> Map<
    Seq<char>,
    Option<Seq<char>>,
> {
    let c = schema.content@;
    let a = content_files(Map::empty(), c, f);
    let b = spec_add_content(a, spec_join_path(f.schema, "node.rs"@), nodes_rs_text(c));
    let d = spec_add_content(b, spec_join_path(f.schema, "node_type.rs"@), node_type_rs_text(c));
    let e = spec_add_content(d, spec_join_path(f.schema, "edge.rs"@), edges_rs_text(c));
    let g = spec_add_content(e, spec_join_path(f.schema, "edge_type.rs"@), edge_type_rs_text(c));
    let h = mod_files(g, c, f);
    let i = spec_add_content(h, spec_join_path(f.schema, "schema.rs"@), schema_impl_text(schema, parents));
    endpoint_files(i, schema, f.nodes)
}

/// The Rust code generated for a schema, whose parent versions are `parents`, into the
/// folders `folders`.
pub fn schema_aggregate_content(schema: &Schema, parents: &Vec<String>, folders: &SchemaFolders) -> (r:
    GenResult<GeneratedCode>)
    ensures
        r matches Ok(g) && g@ == schema_files(*schema, texts(parents@), folders@),
{
    let mut new_files = GeneratedCode::new();
    let r = write_content(&schema.content, &mut new_files, folders);
    if r.is_err() {
        return Err(r.unwrap_err());
    }
    write_nodes_rs(&schema.content, &mut new_files, folders.schema.as_str());
    write_node_type_rs(&schema.content, &mut new_files, folders.schema.as_str());
    write_edges_rs(&schema.content, &mut new_files, folders.schema.as_str());
    write_edge_type_rs(&schema.content, &mut new_files, folders.schema.as_str());
    write_mod(&schema.content, &mut new_files, folders);
    write_schema_impl_rs(schema, parents, &mut new_files, folders.schema.as_str());
    write_edge_endpoints(schema, &mut new_files, folders.nodes.as_str());
    Ok(new_files)
}

} // verus!
