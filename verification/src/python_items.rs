use vstd::prelude::*;
use vstd::string::*;

use crate::code_generator::{CodeGenerator, Python};
use crate::error::GenResult;
use crate::generated_code::{spec_add_content, spec_create_file, GeneratedCode};
use crate::paths::{join_path, spec_join_path};
use crate::python_fields::{
    py_comments_text, py_field_attributes, py_fields_text, write_comments, write_fields,
};
use crate::rust_items::{one_file, push_str, single_file};
use crate::rust_schema_nodes::{any_nodes, either, has_nodes, on_nodes, write_each_node};
use crate::schema::{EnumExp, EnumVarient, FieldValue, NodeExp, SchemaStm, StructExp};
use crate::text::{
    concat_map, join_strings, join_texts, join_wrapped, lemma_concat_map_all, lemma_concat_map_step,
    snake_text, texts, to_snake_case, wrap_texts,
};
use crate::to_python_type::{ToDefaultPythonValue, ToPythonType};
use crate::types::{python_default, python_type};

verus! {

/// A type variable for each generic letter.
pub open spec fn type_var_line() -> spec_fn(String) -> Seq<char> {
    |g: String| g@ + " = TypeVar(\""@ + g@ + "\")\n"@
}

fn write_type_vars(s: &mut String, generics: &Vec<String>)
    ensures
        final(s)@ == old(s)@ + concat_map(generics@, type_var_line()),
{
    let n = generics.len();
    let mut i: usize = 0;
    while i < n
        invariant
            n == generics@.len(),
            i <= n,
            s@ == old(s)@ + concat_map(generics@.subrange(0, i as int), type_var_line()),
        decreases n - i,
    {
        proof {
            lemma_concat_map_step(generics@, i as int, type_var_line());
        }
        let ghost before = s@;
        s.append(generics[i].as_str());
        s.append(" = TypeVar(\"");
        s.append(generics[i].as_str());
        s.append("\")\n");
        assert(s@ =~= before + type_var_line()(generics@[i as int]));
        i = i + 1;
    }
    proof {
        lemma_concat_map_all(generics@, type_var_line());
    }
}

/// The imports at the top of a generated Python node file.
pub open spec fn py_node_imports() -> Seq<char> {
    "from ..node_type import NodeType\nfrom ..edge_type import EdgeType\nfrom ..structs import *\nfrom ..types import *\nfrom ...imports import *\nfrom ..imports import *\nfrom typed_graph import NodeExt, RecievedNoneValue\nfrom typing import Optional, List, Set, Dict, Iterator, Tuple, ClassVar, TYPE_CHECKING\nfrom pydantic import Field, AliasChoices\n\nif TYPE_CHECKING:\n    from .. import *\n    from ..edges import *\n    from ..nodes import *\n\n"@
}

/// The whole Python file written for a node.
pub open spec fn py_node_file(n: NodeExp) -> Seq<char> {
    py_node_imports() + "class "@ + n.name@ + "(NodeExt[NodeId, NodeType]):\n"@ + py_comments_text(
        n.comments,
    ) + "    id: NodeId\n"@ + py_fields_text(n.fields@, false) + "\n"@
        + "    def get_id(self) -> NodeId:\n        return self.id\n\n    def set_id(self, id: NodeId) -> None:\n        self.id = id\n\n    def get_type(self) -> NodeType:\n        return NodeType."@
        + n.name@ + "\n"@
}

/// The text of the Python file written for a node.
pub fn py_node_content(n: &NodeExp) -> (r: String)
    ensures
        r@ == py_node_file(*n),
{
    let mut s = String::from_str(
        "from ..node_type import NodeType\nfrom ..edge_type import EdgeType\nfrom ..structs import *\nfrom ..types import *\nfrom ...imports import *\nfrom ..imports import *\nfrom typed_graph import NodeExt, RecievedNoneValue\nfrom typing import Optional, List, Set, Dict, Iterator, Tuple, ClassVar, TYPE_CHECKING\nfrom pydantic import Field, AliasChoices\n\nif TYPE_CHECKING:\n    from .. import *\n    from ..edges import *\n    from ..nodes import *\n\n",
    );
    s.append("class ");
    s.append(n.name.as_str());
    s.append("(NodeExt[NodeId, NodeType]):\n");
    write_comments(&mut s, &n.comments);
    s.append("    id: NodeId\n");
    write_fields(&mut s, &n.fields, false);
    s.append("\n");
    s.append(
        "    def get_id(self) -> NodeId:\n        return self.id\n\n    def set_id(self, id: NodeId) -> None:\n        self.id = id\n\n    def get_type(self) -> NodeType:\n        return NodeType.",
    );
    s.append(n.name.as_str());
    s.append("\n");
    assert(s@ =~= py_node_file(*n));
    s
}

impl CodeGenerator<Python> for NodeExp {
    open spec fn filename_text(&self) -> Seq<char> {
        snake_text(self.name@)
    }

    open spec fn generated(&self, p: Seq<char>) -> Map<Seq<char>, Option<Seq<char>>> {
        one_file(spec_join_path(p, snake_text(self.name@) + ".py"@), py_node_file(*self))
    }

    fn get_filename(&self) -> (r: String) {
        to_snake_case(self.name.as_str())
    }

    fn aggregate_content(&self, p: &str) -> (r: GenResult<GeneratedCode>) {
        let mut file = CodeGenerator::<Python>::get_filename(self);
        file.append(".py");
        let path = join_path(p, file.as_str());
        Ok(single_file(path, py_node_content(self)))
    }
}

/// The imports at the top of a generated Python struct file.
pub open spec fn py_struct_imports() -> Seq<char> {
    "from __future__ import annotations\nfrom typed_graph import RustModel\nfrom typing import Optional, List, Set, Dict, TypeVar, Generic, ClassVar, TYPE_CHECKING\nfrom pydantic import Field, AliasChoices\n\nif TYPE_CHECKING:\n    from ..imports import *\n    from ...imports import *\n    from ..structs import *\n    from ..types import *\n\n"@
}

/// The whole Python file written for a struct.
pub open spec fn py_struct_file(st: StructExp) -> Seq<char> {
    let refs = join_texts(texts(st.generics@), ", "@);
    py_struct_imports() + concat_map(st.generics@, type_var_line()) + (if refs.len() == 0 {
        "class "@ + st.name@ + "(RustModel):\n"@
    } else {
        "class "@ + st.name@ + "(RustModel, Generic["@ + refs + "]):\n"@
    }) + py_comments_text(st.comments) + (if st.attributes.untagged {
        "    tagging: ClassVar[bool] = False\n"@
    } else {
        Seq::empty()
    }) + (if st.fields@.len() == 0 {
        "     pass"@
    } else {
        Seq::empty()
    }) + py_fields_text(st.fields@, true)
}

/// The text of the Python file written for a struct.
pub fn py_struct_content(st: &StructExp) -> (r: String)
    ensures
        r@ == py_struct_file(*st),
{
    let mut s = String::from_str(
        "from __future__ import annotations\nfrom typed_graph import RustModel\nfrom typing import Optional, List, Set, Dict, TypeVar, Generic, ClassVar, TYPE_CHECKING\nfrom pydantic import Field, AliasChoices\n\nif TYPE_CHECKING:\n    from ..imports import *\n    from ...imports import *\n    from ..structs import *\n    from ..types import *\n\n",
    );
    write_type_vars(&mut s, &st.generics);
    let refs = join_strings(&st.generics, ", ");
    s.append("class ");
    s.append(st.name.as_str());
    if refs.unicode_len() == 0 {
        s.append("(RustModel):\n");
    } else {
        s.append("(RustModel, Generic[");
        s.append(refs.as_str());
        s.append("]):\n");
    }
    write_comments(&mut s, &st.comments);
    if st.attributes.untagged {
        s.append("    tagging: ClassVar[bool] = False\n");
    }
    if st.fields.len() == 0 {
        s.append("     pass");
    }
    write_fields(&mut s, &st.fields, true);
    assert(s@ =~= py_struct_file(*st));
    s
}

impl CodeGenerator<Python> for StructExp {
    open spec fn filename_text(&self) -> Seq<char> {
        snake_text(self.name@)
    }

    open spec fn generated(&self, p: Seq<char>) -> Map<Seq<char>, Option<Seq<char>>> {
        one_file(spec_join_path(p, snake_text(self.name@) + ".py"@), py_struct_file(*self))
    }

    fn get_filename(&self) -> (r: String) {
        to_snake_case(self.name.as_str())
    }

    fn aggregate_content(&self, p: &str) -> (r: GenResult<GeneratedCode>) {
        let mut file = CodeGenerator::<Python>::get_filename(self);
        file.append(".py");
        let path = join_path(p, file.as_str());
        Ok(single_file(path, py_struct_content(self)))
    }
}

/// The arguments of `Field(..)` for a field of a struct variant.
pub open spec fn py_variant_field_attributes(f: FieldValue) -> Seq<Seq<char>> {
    (if f.attributes.skipped {
        seq!["exclude=True"@, "default_factory=lambda:"@ + python_default(f.field_type)]
    } else {
        Seq::empty()
    }) + (if f.attributes.aliases@.len() > 0 {
        seq![
            "validation_alias=AliasChoices('"@ + f.name@ + "', "@ + join_texts(
                wrap_texts(texts(f.attributes.aliases@), "'"@, "'"@),
                ", "@,
            ) + ")"@,
        ]
    } else {
        Seq::empty()
    })
}

/// One field of a struct variant, as an entry of its dictionary.
pub open spec fn py_variant_field() -> spec_fn(FieldValue) -> Seq<char> {
    |f: FieldValue|
        {
            let attrs = py_variant_field_attributes(f);
            if attrs.len() > 0 {
                "         '"@ + f.name@ + "': Annotated["@ + python_type(f.field_type, true)
                    + ", Field("@ + join_texts(attrs, ", "@) + ")],\n"@
            } else {
                "         '"@ + f.name@ + "': "@ + python_type(f.field_type, true) + ",\n"@
            }
        }
}

/// The docstring of a variant: its lines are indented by five spaces.
pub open spec fn py_variant_doc(c: Seq<String>) -> Seq<char> {
    if c.len() > 0 {
        "    \"\"\"\n"@ + concat_map(c, |d: String| "     "@ + d@ + "\n"@) + "    \"\"\"\n"@
    } else {
        Seq::empty()
    }
}

/// One variant of a Python enum, with its docstring.
pub open spec fn py_variant() -> spec_fn(EnumVarient) -> Seq<char> {
    |v: EnumVarient|
        py_variant_head(v) + "\n"@ + py_variant_doc(
            match v {
                EnumVarient::Struct { comments, .. } => comments.doc@,
                EnumVarient::Opaque { comments, .. } => comments.doc@,
                EnumVarient::Unit { comments, .. } => comments.doc@,
            },
        )
}

/// The imports at the top of a generated Python enum file.
pub open spec fn py_enum_imports() -> Seq<char> {
    "from __future__ import annotations\nfrom typed_graph import NestedEnum\nfrom typing import Optional, List, Set, Dict, TypeVar, Generic, ClassVar, Annotated, Literal, TYPE_CHECKING\nfrom pydantic import Field, AliasChoices\n\nif TYPE_CHECKING:\n    from ..imports import *\n    from ...imports import *\n    from ..structs import *\n    from ..types import *\n\n"@
}

/// The whole Python file written for an enum.
pub open spec fn py_enum_file(e: EnumExp) -> Seq<char> {
    let refs = join_texts(texts(e.generics@), ", "@);
    py_enum_imports() + concat_map(e.generics@, type_var_line()) + (if refs.len() == 0 {
        "class "@ + e.name@ + "(NestedEnum):\n"@
    } else {
        "class "@ + e.name@ + "(NestedEnum["@ + refs + "], Generic["@ + refs + "]):\n"@
    }) + py_comments_text(e.comments) + (if e.attributes.untagged {
        "    tagging: ClassVar[bool] = False\n"@
    } else {
        Seq::empty()
    }) + (if e.varients@.len() == 0 {
        "    pass"@
    } else {
        Seq::empty()
    }) + concat_map(e.varients@, py_variant())
}

fn variant_field_attributes(f: &FieldValue) -> (r: Vec<String>)
    ensures
        texts(r@) == py_variant_field_attributes(*f),
{
    let mut v: Vec<String> = Vec::new();
    if f.attributes.skipped {
        push_str(&mut v, "exclude=True");
        let default = f.field_type.to_default_python_value();
        let mut a = String::from_str("default_factory=lambda:");
        a.append(default.as_str());
        let ghost before = v@;
        v.push(a);
        assert(texts(v@) =~= texts(before).push(a@));
    }
    if f.attributes.aliases.len() > 0 {
        let lits = join_wrapped(&f.attributes.aliases, "'", "'", ", ");
        let mut a = String::from_str("validation_alias=AliasChoices('");
        a.append(f.name.as_str());
        a.append("', ");
        a.append(lits.as_str());
        a.append(")");
        let ghost before = v@;
        v.push(a);
        assert(texts(v@) =~= texts(before).push(a@));
    }
    assert(texts(v@) =~= py_variant_field_attributes(*f));
    v
}

fn write_variant_fields(s: &mut String, fields: &Vec<FieldValue>)
    ensures
        final(s)@ == old(s)@ + concat_map(fields@, py_variant_field()),
{
    let n = fields.len();
    let mut i: usize = 0;
    while i < n
        invariant
            n == fields@.len(),
            i <= n,
            s@ == old(s)@ + concat_map(fields@.subrange(0, i as int), py_variant_field()),
        decreases n - i,
    {
        proof {
            lemma_concat_map_step(fields@, i as int, py_variant_field());
        }
        let ghost before = s@;
        let f = &fields[i];
        let ty = f.field_type.to_python_type();
        let attrs = variant_field_attributes(f);
        s.append("         '");
        s.append(f.name.as_str());
        if attrs.len() > 0 {
            let joined = join_strings(&attrs, ", ");
            s.append("': Annotated[");
            s.append(ty.as_str());
            s.append(", Field(");
            s.append(joined.as_str());
            s.append(")],\n");
        } else {
            s.append("': ");
            s.append(ty.as_str());
            s.append(",\n");
        }
        assert(s@ =~= before + py_variant_field()(fields@[i as int]));
        i = i + 1;
    }
    proof {
        lemma_concat_map_all(fields@, py_variant_field());
    }
}

fn write_variant_doc(s: &mut String, docs: &Vec<String>)
    ensures
        final(s)@ == old(s)@ + py_variant_doc(docs@),
{
    let ghost f = |d: String| "     "@ + d@ + "\n"@;
    if docs.len() > 0 {
        let ghost start = s@;
        s.append("    \"\"\"\n");
        let ghost mid = s@;
        let n = docs.len();
        let mut i: usize = 0;
        while i < n
            invariant
                n == docs@.len(),
                i <= n,
                f == (|d: String| "     "@ + d@ + "\n"@),
                s@ == mid + concat_map(docs@.subrange(0, i as int), f),
            decreases n - i,
        {
            proof {
                lemma_concat_map_step(docs@, i as int, f);
            }
            let ghost before = s@;
            s.append("     ");
            s.append(docs[i].as_str());
            s.append("\n");
            assert(s@ =~= before + f(docs@[i as int]));
            i = i + 1;
        }
        proof {
            lemma_concat_map_all(docs@, f);
        }
        s.append("    \"\"\"\n");
        assert(s@ =~= start + py_variant_doc(docs@));
    } else {
        assert(s@ =~= old(s)@ + py_variant_doc(docs@));
    }
}

/// The line of a Python enum that declares one variant, before its docstring.
pub open spec fn py_variant_head(v: EnumVarient) -> Seq<char> {
    match v {
        EnumVarient::Struct { name, comments, attributes, fields } => "    "@ + name@ + " = {\n"@ + (
        if attributes.untagged {
            "         'tagging': Annotated[ClassVar[bool], False],\n"@
        } else {
            Seq::empty()
        }) + concat_map(fields@, py_variant_field()) + "    }"@ + (if attributes.aliases@.len() > 0 {
            " = Field(validation_alias=AliasChoices('"@ + name@ + "', '"@ + join_texts(
                wrap_texts(texts(attributes.aliases@), "'"@, "'"@),
                ", "@,
            ) + "'))"@
        } else {
            Seq::empty()
        }),
        EnumVarient::Opaque { name, ty, .. } => "    "@ + name@ + " = "@ + python_type(ty, true),
        EnumVarient::Unit { name, .. } => "    "@ + name@ + " = Literal"@,
    }
}

fn write_py_variant_head(s: &mut String, v: &EnumVarient)
    ensures
        final(s)@ == old(s)@ + py_variant_head(*v),
{
    let ghost start = s@;
    match v {
        EnumVarient::Struct { name, attributes, fields, .. } => {
            s.append("    ");
            s.append(name.as_str());
            s.append(" = {\n");
            if attributes.untagged {
                s.append("         'tagging': Annotated[ClassVar[bool], False],\n");
            }
            write_variant_fields(s, fields);
            s.append("    }");
            if attributes.aliases.len() > 0 {
                let lits = join_wrapped(&attributes.aliases, "'", "'", ", ");
                s.append(" = Field(validation_alias=AliasChoices('");
                s.append(name.as_str());
                s.append("', '");
                s.append(lits.as_str());
                s.append("'))");
            }
        },
        EnumVarient::Opaque { name, ty, .. } => {
            let field_type = ty.to_python_type();
            s.append("    ");
            s.append(name.as_str());
            s.append(" = ");
            s.append(field_type.as_str());
        },
        EnumVarient::Unit { name, .. } => {
            s.append("    ");
            s.append(name.as_str());
            s.append(" = Literal");
        },
    }
    assert(s@ =~= start + py_variant_head(*v));
}

fn write_py_variant(s: &mut String, v: &EnumVarient)
    ensures
        final(s)@ == old(s)@ + py_variant()(*v),
{
    let ghost start = s@;
    write_py_variant_head(s, v);
    s.append("\n");
    let docs = match v {
        EnumVarient::Struct { comments, .. } => &comments.doc,
        EnumVarient::Opaque { comments, .. } => &comments.doc,
        EnumVarient::Unit { comments, .. } => &comments.doc,
    };
    write_variant_doc(s, docs);
    assert(s@ =~= start + py_variant()(*v));
}

/// The text of the Python file written for an enum.
pub fn py_enum_content(e: &EnumExp) -> (r: String)
    ensures
        r@ == py_enum_file(*e),
{
    let mut s = String::from_str(
        "from __future__ import annotations\nfrom typed_graph import NestedEnum\nfrom typing import Optional, List, Set, Dict, TypeVar, Generic, ClassVar, Annotated, Literal, TYPE_CHECKING\nfrom pydantic import Field, AliasChoices\n\nif TYPE_CHECKING:\n    from ..imports import *\n    from ...imports import *\n    from ..structs import *\n    from ..types import *\n\n",
    );
    write_type_vars(&mut s, &e.generics);
    let refs = join_strings(&e.generics, ", ");
    s.append("class ");
    s.append(e.name.as_str());
    if refs.unicode_len() == 0 {
        s.append("(NestedEnum):\n");
    } else {
        s.append("(NestedEnum[");
        s.append(refs.as_str());
        s.append("], Generic[");
        s.append(refs.as_str());
        s.append("]):\n");
    }
    write_comments(&mut s, &e.comments);
    if e.attributes.untagged {
        s.append("    tagging: ClassVar[bool] = False\n");
    }
    if e.varients.len() == 0 {
        s.append("    pass");
    }
    let ghost mid = s@;
    let n = e.varients.len();
    let mut i: usize = 0;
    while i < n
        invariant
            n == e.varients@.len(),
            i <= n,
            s@ == mid + concat_map(e.varients@.subrange(0, i as int), py_variant()),
        decreases n - i,
    {
        proof {
            lemma_concat_map_step(e.varients@, i as int, py_variant());
        }
        write_py_variant(&mut s, &e.varients[i]);
        i = i + 1;
    }
    proof {
        lemma_concat_map_all(e.varients@, py_variant());
    }
    assert(s@ =~= py_enum_file(*e));
    s
}

impl CodeGenerator<Python> for EnumExp {
    open spec fn filename_text(&self) -> Seq<char> {
        snake_text(self.name@)
    }

    open spec fn generated(&self, p: Seq<char>) -> Map<Seq<char>, Option<Seq<char>>> {
        one_file(spec_join_path(p, snake_text(self.name@) + ".py"@), py_enum_file(*self))
    }

    fn get_filename(&self) -> (r: String) {
        to_snake_case(self.name.as_str())
    }

    fn aggregate_content(&self, p: &str) -> (r: GenResult<GeneratedCode>) {
        let mut file = CodeGenerator::<Python>::get_filename(self);
        file.append(".py");
        let path = join_path(p, file.as_str());
        Ok(single_file(path, py_enum_content(self)))
    }
}

/// The whole node.py of a schema.
pub open spec fn nodes_py_text(c: Seq<SchemaStm>) -> Seq<char> {
    "from .node_type import NodeType\nfrom .nodes import *\nfrom typed_graph import NestedEnum\nfrom ..imports import *\nfrom .imports import *\n\nclass Node(NestedEnum):\n"@
        + either(has_nodes(c), concat_map(c, on_nodes(seq!["    ", " = ", "\n"])), "    pass\n"@)
        + "\n    def get_id(self) -> NodeId:\n        ...\n\n    def set_id(self, id: NodeId) -> None:\n        ...\n\n    def get_type(self) -> NodeType:\n        ...\n"@
}

/// Add node.py, for a schema with the statements `content`, to the files under `schema_folder`.
pub fn write_nodes_py(content: &Vec<SchemaStm>, new_files: &mut GeneratedCode, schema_folder: &str)
    ensures
        final(new_files)@ == spec_add_content(
            old(new_files)@,
            spec_join_path(schema_folder@, "node.py"@),
            nodes_py_text(content@),
        ),
{
    let mut s = String::from_str(
        "from .node_type import NodeType\nfrom .nodes import *\nfrom typed_graph import NestedEnum\nfrom ..imports import *\nfrom .imports import *\n\nclass Node(NestedEnum):\n",
    );
    if any_nodes(content) {
        write_each_node(&mut s, content, &["    ", " = ", "\n"]);
    } else {
        s.append("    pass\n");
    }
    s.append(
        "\n    def get_id(self) -> NodeId:\n        ...\n\n    def set_id(self, id: NodeId) -> None:\n        ...\n\n    def get_type(self) -> NodeType:\n        ...\n",
    );
    assert(s@ =~= nodes_py_text(content@));
    new_files.add_content(join_path(schema_folder, "node.py"), s);
}

/// The whole node_type.py of a schema.
pub open spec fn node_type_py_text(c: Seq<SchemaStm>) -> Seq<char> {
    "from typed_graph import StrEnum\n\nclass NodeType(StrEnum):\n"@ + either(
        has_nodes(c),
        concat_map(c, on_nodes(seq!["    ", " = '", "'\n"])),
        "    pass\n"@,
    )
}

/// Add node_type.py, for a schema with the statements `content`, to the files under `schema_folder`.
pub fn write_node_type_py(content: &Vec<SchemaStm>, new_files: &mut GeneratedCode, schema_folder: &str)
    ensures
        final(new_files)@ == spec_add_content(
            old(new_files)@,
            spec_join_path(schema_folder@, "node_type.py"@),
            node_type_py_text(content@),
        ),
{
    let mut s = String::from_str("from typed_graph import StrEnum\n\nclass NodeType(StrEnum):\n");
    if any_nodes(content) {
        write_each_node(&mut s, content, &["    ", " = '", "'\n"]);
    } else {
        s.append("    pass\n");
    }
    assert(s@ =~= node_type_py_text(content@));
    new_files.add_content(join_path(schema_folder, "node_type.py"), s);
}

/// Ask for the project's `__init__.py` and `imports.py` to exist; their content is left alone.
pub fn write_init(new_files: &mut GeneratedCode, project_folder: &str)
    ensures
        final(new_files)@ == spec_create_file(
            spec_create_file(old(new_files)@, spec_join_path(project_folder@, "__init__.py"@)),
            spec_join_path(project_folder@, "imports.py"@),
        ),
{
    new_files.create_file(join_path(project_folder, "__init__.py"));
    new_files.create_file(join_path(project_folder, "imports.py"));
}

} // verus!
