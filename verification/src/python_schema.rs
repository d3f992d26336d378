use vstd::prelude::*;
use vstd::string::*;

use crate::code_generator::{CodeGenerator, Python};
use crate::error::GenResult;
use crate::generated_code::{spec_add_content, spec_create_file, spec_merge, GeneratedCode};
use crate::paths::{join_path, spec_join_path};
use crate::python_endpoints::{py_endpoint_files, write_edge_endpoints_py};
use crate::python_fields::{py_comments_text, py_fields_text, write_comments, write_fields};
use crate::python_items::{
    node_type_py_text, nodes_py_text, py_enum_file, py_node_file, py_struct_file,
    write_node_type_py, write_nodes_py,
};
use crate::rust_items::{one_file, single_file};
use crate::rust_schema::{schema_name_text, stm_module, FolderPaths, SchemaFolders};
use crate::rust_schema_edges::{any_edges, has_edges, on_edges, write_each_edge};
use crate::rust_schema_nodes::either;
use crate::schema::{EdgeExp, EndPoint, QuantityBound, Schema, SchemaStm};
use crate::text::{
    concat_map, decimal_text, fill, fill_holes, lemma_concat_map_all, lemma_concat_map_step,
    replace_dots, snake_text, str_texts, to_snake_case, write_decimal, write_fill, write_holes,
};

verus! {

/// The imports at the top of a generated Python edge file.
pub open spec fn py_edge_imports() -> Seq<char> {
    "from ..edge_type import EdgeType\nfrom ..structs import *\nfrom ..types import *\nfrom ...imports import *\nfrom ..imports import *\nfrom pydantic import Field, AliasChoices\nfrom typing import Optional, List, Set, Dict, ClassVar\nfrom typed_graph import EdgeExt\n\n"@
}

/// The whole Python file written for an edge.
pub open spec fn py_edge_file(e: EdgeExp) -> Seq<char> {
    py_edge_imports() + "class "@ + e.name@ + "(EdgeExt[EdgeId, EdgeType]):\n"@ + py_comments_text(
        e.comments,
    ) + "    tagging: ClassVar[bool] = False\n    id: EdgeId\n"@ + py_fields_text(e.fields@, false)
        + "\n    def get_id(self) -> EdgeId:\n        return self.id\n\n    def set_id(self, id: EdgeId) -> None:\n        self.id = id\n\n    def get_type(self) -> EdgeType:\n        return EdgeType."@
        + e.name@ + "\n"@
}

/// The text of the Python file written for an edge.
pub fn py_edge_content(e: &EdgeExp) -> (r: String)
    ensures
        r@ == py_edge_file(*e),
{
    let mut s = String::from_str(
        "from ..edge_type import EdgeType\nfrom ..structs import *\nfrom ..types import *\nfrom ...imports import *\nfrom ..imports import *\nfrom pydantic import Field, AliasChoices\nfrom typing import Optional, List, Set, Dict, ClassVar\nfrom typed_graph import EdgeExt\n\n",
    );
    s.append("class ");
    s.append(e.name.as_str());
    s.append("(EdgeExt[EdgeId, EdgeType]):\n");
    write_comments(&mut s, &e.comments);
    s.append("    tagging: ClassVar[bool] = False\n    id: EdgeId\n");
    write_fields(&mut s, &e.fields, false);
    s.append(
        "\n    def get_id(self) -> EdgeId:\n        return self.id\n\n    def set_id(self, id: EdgeId) -> None:\n        self.id = id\n\n    def get_type(self) -> EdgeType:\n        return EdgeType.",
    );
    s.append(e.name.as_str());
    s.append("\n");
    assert(s@ =~= py_edge_file(*e));
    s
}

impl CodeGenerator<Python> for EdgeExp {
    open spec fn filename_text(&self) -> Seq<char> {
        snake_text(self.name@)
    }

    open spec fn generated(&self, p: Seq<char>) -> Map<Seq<char>, Option<Seq<char>>> {
        one_file(spec_join_path(p, snake_text(self.name@) + ".py"@), py_edge_file(*self))
    }

    fn get_filename(&self) -> (r: String) {
        to_snake_case(self.name.as_str())
    }

    fn aggregate_content(&self, p: &str) -> (r: GenResult<GeneratedCode>) {
        let mut file = CodeGenerator::<Python>::get_filename(self);
        file.append(".py");
        let path = join_path(p, file.as_str());
        Ok(single_file(path, py_edge_content(self)))
    }
}

/// The whole edge.py of a schema.
pub open spec fn edges_py_text(c: Seq<SchemaStm>) -> Seq<char> {
    "from .edge_type import EdgeType\nfrom .edges import *\nfrom typed_graph import NestedEnum\nfrom ..imports import *\nfrom .imports import *\n\nclass Edge(NestedEnum):\n"@
        + either(has_edges(c), concat_map(c, on_edges(seq!["    ", " = ", "\n"])), "    pass\n"@)
        + "\n    def get_id(self) -> EdgeId:\n        ...\n\n    def set_id(self, id: EdgeId) -> None:\n        ...\n\n    def get_type(self) -> EdgeType:\n        ...\n"@
}

/// Add edge.py, for a schema with the statements `content`, to the files under `schema_folder`.
pub fn write_edges_py(content: &Vec<SchemaStm>, new_files: &mut GeneratedCode, schema_folder: &str)
    ensures
        final(new_files)@ == spec_add_content(
            old(new_files)@,
            spec_join_path(schema_folder@, "edge.py"@),
            edges_py_text(content@),
        ),
{
    let mut s = String::from_str(
        "from .edge_type import EdgeType\nfrom .edges import *\nfrom typed_graph import NestedEnum\nfrom ..imports import *\nfrom .imports import *\n\nclass Edge(NestedEnum):\n",
    );
    if any_edges(content) {
        write_each_edge(&mut s, content, &["    ", " = ", "\n"]);
    } else {
        s.append("    pass\n");
    }
    s.append(
        "\n    def get_id(self) -> EdgeId:\n        ...\n\n    def set_id(self, id: EdgeId) -> None:\n        ...\n\n    def get_type(self) -> EdgeType:\n        ...\n",
    );
    assert(s@ =~= edges_py_text(content@));
    new_files.add_content(join_path(schema_folder, "edge.py"), s);
}

/// The whole edge_type.py of a schema.
pub open spec fn edge_type_py_text(c: Seq<SchemaStm>) -> Seq<char> {
    "from typed_graph import StrEnum\n\nclass EdgeType(StrEnum):\n"@ + either(
        has_edges(c),
        concat_map(c, on_edges(seq!["    ", " = '", "'\n"])),
        "    pass\n"@,
    )
}

/// Add edge_type.py, for a schema with the statements `content`, to the files under `schema_folder`.
pub fn write_edge_type_py(content: &Vec<SchemaStm>, new_files: &mut GeneratedCode, schema_folder: &str)
    ensures
        final(new_files)@ == spec_add_content(
            old(new_files)@,
            spec_join_path(schema_folder@, "edge_type.py"@),
            edge_type_py_text(content@),
        ),
{
    let mut s = String::from_str("from typed_graph import StrEnum\n\nclass EdgeType(StrEnum):\n");
    if any_edges(content) {
        write_each_edge(&mut s, content, &["    ", " = '", "'\n"]);
    } else {
        s.append("    pass\n");
    }
    assert(s@ =~= edge_type_py_text(content@));
    new_files.add_content(join_path(schema_folder, "edge_type.py"), s);
}

/// The line of a package's `__init__.py` that imports a statement of module folder `k`.
pub open spec fn init_import_line(k: nat) -> spec_fn(SchemaStm) -> Seq<char> {
    |st: SchemaStm|
        match stm_module(st) {
            Some(m) => if m.0 == k {
                fill_holes(seq!["from .", " import ", "\n"], seq![snake_text(m.1), m.1])
            } else {
                Seq::empty()
            },
            None => Seq::empty(),
        }
}

/// The line of a package's `__main__` list that names a statement of module folder `k`.
pub open spec fn init_main_line(k: nat) -> spec_fn(SchemaStm) -> Seq<char> {
    |st: SchemaStm|
        match stm_module(st) {
            Some(m) => if m.0 == k {
                "    '"@ + m.1 + "',\n"@
            } else {
                Seq::empty()
            },
            None => Seq::empty(),
        }
}

/// The `__init__.py` of module folder `k`.
pub open spec fn package_init_text(c: Seq<SchemaStm>, k: nat) -> Seq<char> {
    concat_map(c, init_import_line(k)) + "__main__ = [\n"@ + concat_map(c, init_main_line(k)) + "]\n"@
}

/// The template of the `__init__.py` at the root of a generated schema.
pub open spec fn schema_init_template() -> Seq<&'static str> {
    seq![
        "from .edge_type import EdgeType\nfrom .node_type import NodeType\nfrom .edge import Edge\nfrom .node import Node\nfrom .schema import ",
        "\nfrom .types import *\nfrom .edges import *\nfrom .nodes import *\nfrom .structs import *\n\nfrom .. import imports\nfrom typed_graph import TypedGraph\n",
        "Graph = TypedGraph[Node, Edge, imports.NodeId, imports.EdgeId, NodeType, EdgeType, ",
        "]\n\n__main__ = [\n    'EdgeType',\n    'NodeType',\n    'Edge',\n    'Node',\n    '",
        "',\n]\n",
    ]
}

/// The files after the package files of a Python schema were added.
pub open spec fn init_files(
    files: Map<Seq<char>, Option<Seq<char>>>,
    schema: Schema,
    f: FolderPaths,
) -> Map<Seq<char>, Option<Seq<char>>> {
    let c = schema.content@;
    let a = spec_add_content(files, spec_join_path(f.nodes, "__init__.py"@), package_init_text(c, 0));
    let b = spec_add_content(a, spec_join_path(f.structs, "__init__.py"@), package_init_text(c, 1));
    let d = spec_add_content(b, spec_join_path(f.edges, "__init__.py"@), package_init_text(c, 2));
    let e = spec_add_content(d, spec_join_path(f.types, "__init__.py"@), package_init_text(c, 3));
    let g = spec_add_content(
        e,
        spec_join_path(f.schema, "__init__.py"@),
        fill(schema_init_template(), schema_name_text(schema.version@)),
    );
    spec_create_file(g, spec_join_path(f.schema, "imports.py"@))
}

fn stm_module_of(st: &SchemaStm) -> (r: Option<(u8, &String)>)
    ensures
        match r {
            Some((k, name)) => stm_module(*st) == Some((k as nat, name@)),
            None => stm_module(*st) is None,
        },
{
    match st {
        SchemaStm::Node(x) => Some((0u8, &x.name)),
        SchemaStm::Struct(x) => Some((1u8, &x.name)),
        SchemaStm::Edge(x) => Some((2u8, &x.name)),
        SchemaStm::Enum(x) => Some((3u8, &x.name)),
        SchemaStm::Import(_) => None,
    }
}

fn package_init(content: &Vec<SchemaStm>, k: u8) -> (r: String)
    ensures
        r@ == package_init_text(content@, k as nat),
{
    let mut s = String::new();
    let n = content.len();
    let mut i: usize = 0;
    while i < n
        invariant
            n == content@.len(),
            i <= n,
            s@ == concat_map(content@.subrange(0, i as int), init_import_line(k as nat)),
        decreases n - i,
    {
        proof {
            lemma_concat_map_step(content@, i as int, init_import_line(k as nat));
        }
        let ghost before = s@;
        match stm_module_of(&content[i]) {
            Some((m, name)) => {
                if m == k {
                    let file = to_snake_case(name.as_str());
                    let holes = [file.as_str(), name.as_str()];
                    assert(str_texts(holes@) =~= seq![file@, name@]);
                    write_holes(&mut s, &["from .", " import ", "\n"], &holes);
                }
            },
            None => {},
        }
        assert(s@ =~= before + init_import_line(k as nat)(content@[i as int]));
        i = i + 1;
    }
    proof {
        lemma_concat_map_all(content@, init_import_line(k as nat));
    }
    s.append("__main__ = [\n");
    let ghost mid = s@;
    let mut j: usize = 0;
    while j < n
        invariant
            n == content@.len(),
            j <= n,
            s@ == mid + concat_map(content@.subrange(0, j as int), init_main_line(k as nat)),
        decreases n - j,
    {
        proof {
            lemma_concat_map_step(content@, j as int, init_main_line(k as nat));
        }
        let ghost before = s@;
        match stm_module_of(&content[j]) {
            Some((m, name)) => {
                if m == k {
                    s.append("    '");
                    s.append(name.as_str());
                    s.append("',\n");
                }
            },
            None => {},
        }
        assert(s@ =~= before + init_main_line(k as nat)(content@[j as int]));
        j = j + 1;
    }
    proof {
        lemma_concat_map_all(content@, init_main_line(k as nat));
    }
    s.append("]\n");
    s
}

/// Add the package files of a generated Python schema: an `__init__.py` for each module
/// folder and for the schema, and an empty imports.py.
pub fn write_init(schema: &Schema, new_files: &mut GeneratedCode, folders: &SchemaFolders)
    ensures
        final(new_files)@ == init_files(old(new_files)@, *schema, folders@),
{
    let c = &schema.content;
    new_files.add_content(join_path(folders.nodes.as_str(), "__init__.py"), package_init(c, 0));
    new_files.add_content(join_path(folders.structs.as_str(), "__init__.py"), package_init(c, 1));
    new_files.add_content(join_path(folders.edges.as_str(), "__init__.py"), package_init(c, 2));
    new_files.add_content(join_path(folders.types.as_str(), "__init__.py"), package_init(c, 3));
    let name = replace_dots(schema.version.as_str());
    let mut s = String::new();
    let parts = [
        "from .edge_type import EdgeType\nfrom .node_type import NodeType\nfrom .edge import Edge\nfrom .node import Node\nfrom .schema import ",
        "\nfrom .types import *\nfrom .edges import *\nfrom .nodes import *\nfrom .structs import *\n\nfrom .. import imports\nfrom typed_graph import TypedGraph\n",
        "Graph = TypedGraph[Node, Edge, imports.NodeId, imports.EdgeId, NodeType, EdgeType, ",
        "]\n\n__main__ = [\n    'EdgeType',\n    'NodeType',\n    'Edge',\n    'Node',\n    '",
        "',\n]\n",
    ];
    assert(parts@ =~= schema_init_template());
    write_fill(&mut s, &parts, name.as_str());
    assert(s@ =~= fill(schema_init_template(), schema_name_text(schema.version@)));
    new_files.add_content(join_path(folders.schema.as_str(), "__init__.py"), s);
    new_files.create_file(join_path(folders.schema.as_str(), "imports.py"));
}

/// The number of edges of one kind a node may have, as the Python schema records it: one
/// more than an included bound, an excluded bound itself, or `None`.
pub open spec fn py_quantity(q: QuantityBound) -> Seq<char> {
    match q {
        QuantityBound::Included(i) => decimal_text(i as nat + 1),
        QuantityBound::Excluded(i) => decimal_text(i as nat),
        QuantityBound::Unbounded => "None"@,
    }
}

/// The entry of `endpoint_meta` for one end point of the edge `edge_name`.
pub open spec fn py_endpoint_meta(edge_name: Seq<char>) -> spec_fn(EndPoint) -> Seq<char> {
    |ep: EndPoint|
        fill_holes(
            seq!["        (EdgeType.", ", NodeType.", ", NodeType.", "): ", ",\n"],
            seq![edge_name, ep.source@, ep.target@, py_quantity(ep.quantity.quantity)],
        )
}

/// The entries of `endpoint_meta` for each edge statement.
pub open spec fn py_edge_meta() -> spec_fn(SchemaStm) -> Seq<char> {
    |st: SchemaStm|
        match st {
            SchemaStm::Edge(e) => concat_map(e.endpoints@, py_endpoint_meta(e.name@)),
            _ => Seq::empty(),
        }
}

/// The rest of schema.py after the end points.
pub open spec fn py_schema_tail_template() -> Seq<&'static str> {
    seq![
        "    }\n\n    def name(self) -> str:\n        return '",
        "'\n    \n    def allow_node(self, node_type: NodeType) -> TypeStatus | bool:\n        return isinstance(node_type, NodeType) and node_type in NodeType.__members__.keys()\n    \n    def allow_edge(self, quantity: int, edge_type: EdgeType, source_type: NodeType, target_type: NodeType) -> TypeStatus | bool:\n        source_allowed = isinstance(source_type, NodeType) and source_type in NodeType.__members__.keys()\n        target_allowed = isinstance(target_type, NodeType) and target_type in NodeType.__members__.keys()\n        edge_allowed = isinstance(edge_type, EdgeType) and edge_type in EdgeType.__members__.keys()\n        edge_meta_key = (edge_type, source_type, target_type)\n        endpoint_allowed = edge_meta_key in ",
        ".endpoint_meta\n        \n        if not source_allowed or not target_allowed or not edge_allowed or not endpoint_allowed:\n            return TypeStatus.InvalidType\n        \n        allowed_quantity = ",
        ".endpoint_meta[(edge_type, source_type, target_type)]\n        if allowed_quantity is not None and quantity >= allowed_quantity:\n            return TypeStatus.ToMany\n        \n        return TypeStatus.Ok\n        \n",
    ]
}

/// The whole schema.py of a schema.
pub open spec fn py_schema_impl_text(schema: Schema) -> Seq<char> {
    let n = schema_name_text(schema.version@);
    "from typing import TypeVar\nfrom typed_graph import SchemaExt, TypeStatus\nfrom .node import Node\nfrom .edge import Edge\nfrom .edge_type import EdgeType\nfrom .node_type import NodeType\nfrom typing import ClassVar, Dict, Tuple\n\nNK = TypeVar('NK')\nEK = TypeVar('EK')\nclass "@
        + n
        + "(SchemaExt[Node, Edge, NK, EK, NodeType, EdgeType]):\n    endpoint_meta: ClassVar[Dict[Tuple[EdgeType, NodeType, NodeType], int]] = {\n"@
        + concat_map(schema.content@, py_edge_meta()) + fill_holes(
        py_schema_tail_template(),
        seq![schema.version@, n, n],
    )
}

fn write_endpoint_meta(s: &mut String, edge_name: &str, endpoints: &Vec<EndPoint>)
    ensures
        final(s)@ == old(s)@ + concat_map(endpoints@, py_endpoint_meta(edge_name@)),
{
    let n = endpoints.len();
    let mut i: usize = 0;
    while i < n
        invariant
            n == endpoints@.len(),
            i <= n,
            s@ == old(s)@ + concat_map(endpoints@.subrange(0, i as int), py_endpoint_meta(edge_name@)),
        decreases n - i,
    {
        proof {
            lemma_concat_map_step(endpoints@, i as int, py_endpoint_meta(edge_name@));
        }
        let ghost before = s@;
        let ep = &endpoints[i];
        let mut q = String::new();
        match ep.quantity.quantity {
            QuantityBound::Included(x) => write_decimal(&mut q, x as u64 + 1),
            QuantityBound::Excluded(x) => write_decimal(&mut q, x as u64),
            QuantityBound::Unbounded => q.append("None"),
        }
        assert(q@ =~= py_quantity(ep.quantity.quantity));
        let holes = [edge_name, ep.source.as_str(), ep.target.as_str(), q.as_str()];
        assert(str_texts(holes@) =~= seq![edge_name@, ep.source@, ep.target@, q@]);
        write_holes(s, &["        (EdgeType.", ", NodeType.", ", NodeType.", "): ", ",\n"], &holes);
        assert(s@ =~= before + py_endpoint_meta(edge_name@)(endpoints@[i as int]));
        i = i + 1;
    }
    proof {
        lemma_concat_map_all(endpoints@, py_endpoint_meta(edge_name@));
    }
}

/// The text of schema.py for `schema`.
pub fn py_schema_impl_content(schema: &Schema) -> (r: String)
    ensures
        r@ == py_schema_impl_text(*schema),
{
    let name = replace_dots(schema.version.as_str());
    let mut s = String::from_str(
        "from typing import TypeVar\nfrom typed_graph import SchemaExt, TypeStatus\nfrom .node import Node\nfrom .edge import Edge\nfrom .edge_type import EdgeType\nfrom .node_type import NodeType\nfrom typing import ClassVar, Dict, Tuple\n\nNK = TypeVar('NK')\nEK = TypeVar('EK')\nclass ",
    );
    s.append(name.as_str());
    s.append(
        "(SchemaExt[Node, Edge, NK, EK, NodeType, EdgeType]):\n    endpoint_meta: ClassVar[Dict[Tuple[EdgeType, NodeType, NodeType], int]] = {\n",
    );
    let ghost head = s@;
    let n = schema.content.len();
    let mut i: usize = 0;
    while i < n
        invariant
            n == schema.content@.len(),
            i <= n,
            s@ == head + concat_map(schema.content@.subrange(0, i as int), py_edge_meta()),
        decreases n - i,
    {
        proof {
            lemma_concat_map_step(schema.content@, i as int, py_edge_meta());
        }
        let ghost before = s@;
        match &schema.content[i] {
            SchemaStm::Edge(e) => write_endpoint_meta(&mut s, e.name.as_str(), &e.endpoints),
            _ => {},
        }
        assert(s@ =~= before + py_edge_meta()(schema.content@[i as int]));
        i = i + 1;
    }
    proof {
        lemma_concat_map_all(schema.content@, py_edge_meta());
    }
    let tail = [
        "    }\n\n    def name(self) -> str:\n        return '",
        "'\n    \n    def allow_node(self, node_type: NodeType) -> TypeStatus | bool:\n        return isinstance(node_type, NodeType) and node_type in NodeType.__members__.keys()\n    \n    def allow_edge(self, quantity: int, edge_type: EdgeType, source_type: NodeType, target_type: NodeType) -> TypeStatus | bool:\n        source_allowed = isinstance(source_type, NodeType) and source_type in NodeType.__members__.keys()\n        target_allowed = isinstance(target_type, NodeType) and target_type in NodeType.__members__.keys()\n        edge_allowed = isinstance(edge_type, EdgeType) and edge_type in EdgeType.__members__.keys()\n        edge_meta_key = (edge_type, source_type, target_type)\n        endpoint_allowed = edge_meta_key in ",
        ".endpoint_meta\n        \n        if not source_allowed or not target_allowed or not edge_allowed or not endpoint_allowed:\n            return TypeStatus.InvalidType\n        \n        allowed_quantity = ",
        ".endpoint_meta[(edge_type, source_type, target_type)]\n        if allowed_quantity is not None and quantity >= allowed_quantity:\n            return TypeStatus.ToMany\n        \n        return TypeStatus.Ok\n        \n",
    ];
    assert(tail@ =~= py_schema_tail_template());
    let holes = [schema.version.as_str(), name.as_str(), name.as_str()];
    assert(str_texts(holes@) =~= seq![schema.version@, name@, name@]);
    write_holes(&mut s, &tail, &holes);
    assert(s@ =~= py_schema_impl_text(*schema));
    s
}

/// Add schema.py to the files under `schema_folder`.
pub fn write_schema_impl_py(schema: &Schema, new_files: &mut GeneratedCode, schema_folder: &str)
    ensures
        final(new_files)@ == spec_add_content(
            old(new_files)@,
            spec_join_path(schema_folder@, "schema.py"@),
            py_schema_impl_text(*schema),
        ),
{
    let text = py_schema_impl_content(schema);
    new_files.add_content(join_path(schema_folder, "schema.py"), text);
}

/// The Python file of one statement, in the folder of its kind; imports give none.
pub open spec fn py_stm_files(st: SchemaStm, f: FolderPaths) -> Map<Seq<char>, Option<Seq<char>>> {
    match st {
        SchemaStm::Node(n) => one_file(spec_join_path(f.nodes, snake_text(n.name@) + ".py"@), py_node_file(n)),
        SchemaStm::Struct(n) => one_file(
            spec_join_path(f.structs, snake_text(n.name@) + ".py"@),
            py_struct_file(n),
        ),
        SchemaStm::Edge(n) => one_file(spec_join_path(f.edges, snake_text(n.name@) + ".py"@), py_edge_file(n)),
        SchemaStm::Enum(n) => one_file(spec_join_path(f.types, snake_text(n.name@) + ".py"@), py_enum_file(n)),
        SchemaStm::Import(_) => Map::empty(),
    }
}

/// The files after the Python file of each statement was merged in, in order.
pub open spec fn py_content_files(
    files: Map<Seq<char>, Option<Seq<char>>>,
    c: Seq<SchemaStm>,
    f: FolderPaths,
) -> Map<Seq<char>, Option<Seq<char>>>
    decreases c.len(),
{
    if c.len() == 0 {
        files
    } else {
        spec_merge(py_content_files(files, c.drop_last(), f), py_stm_files(c.last(), f))
    }
}

/// Add the Python file of each statement to the folder of its kind.
pub fn write_content(content: &Vec<SchemaStm>, new_files: &mut GeneratedCode, folders: &SchemaFolders) -> (r:
    GenResult<()>)
    ensures
        r is Ok,
        final(new_files)@ == py_content_files(old(new_files)@, content@, folders@),
{
    let n = content.len();
    let mut i: usize = 0;
    while i < n
        invariant
            n == content@.len(),
            i <= n,
            new_files@ == py_content_files(old(new_files)@, content@.subrange(0, i as int), folders@),
        decreases n - i,
    {
        proof {
            assert(content@.subrange(0, i + 1).drop_last() =~= content@.subrange(0, i as int));
        }
        let added = match &content[i] {
            SchemaStm::Node(x) => CodeGenerator::<Python>::aggregate_content(x, folders.nodes.as_str()),
            SchemaStm::Struct(x) => CodeGenerator::<Python>::aggregate_content(
                x,
                folders.structs.as_str(),
            ),
            SchemaStm::Edge(x) => CodeGenerator::<Python>::aggregate_content(x, folders.edges.as_str()),
            SchemaStm::Enum(x) => CodeGenerator::<Python>::aggregate_content(x, folders.types.as_str()),
            SchemaStm::Import(_) => Ok(GeneratedCode::new()),
        };
        match added {
            Ok(g) => {
                assert(g@ == py_stm_files(content@[i as int], folders@));
                new_files.append(g);
            },
            Err(e) => {
                return Err(e);
            },
        }
        i = i + 1;
    }
    proof {
        assert(content@.subrange(0, n as int) =~= content@);
    }
    Ok(())
}

/// The Python code generated for a schema into the folders `f`.
pub open spec fn py_schema_files(schema: Schema, f: FolderPaths) -> Map<Seq<char>, Option<Seq<char>>> {
    let c = schema.content@;
    let a = py_content_files(Map::empty(), c, f);
    let b = spec_add_content(a, spec_join_path(f.schema, "node.py"@), nodes_py_text(c));
    let d = spec_add_content(b, spec_join_path(f.schema, "node_type.py"@), node_type_py_text(c));
    let e = spec_add_content(d, spec_join_path(f.schema, "edge.py"@), edges_py_text(c));
    let g = spec_add_content(e, spec_join_path(f.schema, "edge_type.py"@), edge_type_py_text(c));
    let h = init_files(g, schema, f);
    let i = spec_add_content(h, spec_join_path(f.schema, "schema.py"@), py_schema_impl_text(schema));
    py_endpoint_files(i, schema, f.nodes)
}

/// The Python code generated for a schema into the folders `folders`.
pub fn py_schema_aggregate_content(schema: &Schema, folders: &SchemaFolders) -> (r: GenResult<GeneratedCode>)
    ensures
        r matches Ok(g) && g@ == py_schema_files(*schema, folders@),
{
    let mut new_files = GeneratedCode::new();
    let r = write_content(&schema.content, &mut new_files, folders);
    if r.is_err() {
        return Err(r.unwrap_err());
    }
    write_nodes_py(&schema.content, &mut new_files, folders.schema.as_str());
    write_node_type_py(&schema.content, &mut new_files, folders.schema.as_str());
    write_edges_py(&schema.content, &mut new_files, folders.schema.as_str());
    write_edge_type_py(&schema.content, &mut new_files, folders.schema.as_str());
    write_init(schema, &mut new_files, folders);
    write_schema_impl_py(schema, &mut new_files, folders.schema.as_str());
    write_edge_endpoints_py(schema, &mut new_files, folders.nodes.as_str());
    Ok(new_files)
}

} // verus!
