use vstd::prelude::*;
use vstd::string::*;

use crate::code_generator::{CodeGenerator, Rust};
use crate::error::GenResult;
use crate::generated_code::GeneratedCode;
use crate::paths::{join_path, spec_join_path};
use crate::project::str_equal;
use crate::rust_fields::{
    rust_comments_text, rust_fields_text, write_comments, write_fields, FieldFormatter,
};
use crate::rust_items::{
    derive_values, fmt_at, generics_decl, one_file, push_derive_values, single_file,
    write_generics_decl,
};
use crate::schema::{FieldValue, NodeExp, StructExp, Visibility};
use crate::text::{
    concat_map, join_strings, join_texts, lemma_concat_map_all, lemma_concat_map_step, snake_text,
    texts, to_snake_case,
};
use crate::to_rust_type::ToRustType;
use crate::types::{rust_type, schema_text};

verus! {

/// The first field called `name`, if any.
pub open spec fn field_named(fs: Seq<FieldValue>, name: Seq<char>) -> Option<FieldValue>
    decreases fs.len(),
{
    if fs.len() == 0 {
        None
    } else {
        match field_named(fs.drop_last(), name) {
            Some(f) => Some(f),
            None => if fs.last().name@ == name {
                Some(fs.last())
            } else {
                None
            },
        }
    }
}

/// The first field of `fields` called `name`, if any.
pub fn get_field<'a>(fields: &'a Vec<FieldValue>, name: &str) -> (r: Option<&'a FieldValue>)
    ensures
        match r {
            Some(f) => field_named(fields@, name@) == Some(*f),
            None => field_named(fields@, name@) is None,
        },
{
    let n = fields.len();
    let mut i: usize = 0;
    while i < n
        invariant
            n == fields@.len(),
            i <= n,
            field_named(fields@.subrange(0, i as int), name@) is None,
        decreases n - i,
    {
        proof {
            assert(fields@.subrange(0, i + 1).drop_last() =~= fields@.subrange(0, i as int));
        }
        if str_equal(fields[i].name.as_str(), name) {
            proof {
                lemma_field_named_prefix(fields@, i as int + 1, name@);
            }
            return Some(&fields[i]);
        }
        i = i + 1;
    }
    proof {
        assert(fields@.subrange(0, n as int) =~= fields@);
    }
    None
}

/// Once a prefix holds a field of that name, the whole list gives the same one.
proof fn lemma_field_named_prefix(fs: Seq<FieldValue>, k: int, name: Seq<char>)
    requires
        0 <= k <= fs.len(),
        field_named(fs.subrange(0, k), name) is Some,
    ensures
        field_named(fs, name) == field_named(fs.subrange(0, k), name),
    decreases fs.len() - k,
{
    if k < fs.len() {
        assert(fs.subrange(0, k + 1).drop_last() =~= fs.subrange(0, k));
        lemma_field_named_prefix(fs, k + 1, name);
    } else {
        assert(fs.subrange(0, k) =~= fs);
    }
}

/// The imports at the top of a generated Rust node file.
pub open spec fn rust_node_imports() -> Seq<char> {
    "#[allow(unused_imports)]\nuse super::super::super::imports::*;\n#[allow(unused_imports)]\nuse super::super::imports::*;\n#[allow(unused_imports)]\nuse super::super::*;\n#[allow(unused_imports)]\nuse std::collections::HashMap;\nuse typed_graph::*;\nuse serde::{Serialize, Deserialize};\n"@
}

/// The visibility keyword of a node field.
pub open spec fn node_visibility(v: Visibility) -> Seq<char> {
    match v {
        Visibility::Local => "pub(crate) "@,
        Visibility::Public => "pub "@,
    }
}

/// Documentation lines of a node field.
pub open spec fn node_field_doc_line() -> spec_fn(String) -> Seq<char> {
    |c: String| "   /// "@ + c@ + "\n"@
}

/// Documentation lines of a node.
pub open spec fn node_doc_line() -> spec_fn(String) -> Seq<char> {
    |c: String| "/// "@ + c@ + "\n"@
}

/// A field in the declaration of a node struct, after the field before it.
pub open spec fn node_field_decl() -> spec_fn(FieldValue) -> Seq<char> {
    |f: FieldValue|
        ",\n"@ + concat_map(f.comments.doc@, node_field_doc_line()) + "    "@ + node_visibility(
            f.visibility,
        ) + f.name@ + ": "@ + rust_type(f.field_type)
}

/// A parameter of the constructor of a node.
pub open spec fn node_new_param() -> spec_fn(FieldValue) -> Seq<char> {
    |f: FieldValue| ",\n"@ + "       "@ + f.name@ + ": "@ + rust_type(f.field_type)
}

/// A field set by the constructor of a node.
pub open spec fn node_new_field() -> spec_fn(FieldValue) -> Seq<char> {
    |f: FieldValue| ",\n"@ + "           "@ + f.name@
}

/// The node struct.
pub open spec fn rust_node_decl(n: NodeExp) -> Seq<char> {
    "\n"@ + concat_map(n.comments.doc@, node_doc_line())
        + "#[derive(Clone, Debug, Serialize, Deserialize)]\n"@ + "pub struct "@ + n.name@ + "<NK>"@
        + "   {\n"@ + "    pub(crate) id: NK"@ + concat_map(n.fields@, node_field_decl()) + "\n"@
        + "}\n"@
}

/// The constructor of the node struct.
pub open spec fn rust_node_new(n: NodeExp) -> Seq<char> {
    "\n"@ + "impl<NK> "@ + n.name@ + "<NK> {\n"@ + "    pub fn new(\n"@ + "       id: NK"@
        + concat_map(n.fields@, node_new_param()) + "\n"@ + "   ) -> Self {\n"@
        + "        Self {\n"@ + "           id"@ + concat_map(n.fields@, node_new_field()) + "\n"@
        + "        }\n"@ + "    }\n"@ + "}\n"@
}

/// The `Typed` and `Id` implementations of the node struct.
pub open spec fn rust_node_typed_id(n: NodeExp) -> Seq<char> {
    "\n"@ + "impl<NK> Typed for "@ + n.name@ + "<NK> {\n"@ + "    type Type = NodeType;\n"@
        + "    fn get_type(&self) -> NodeType {\n"@ + "       NodeType::"@ + n.name@ + "\n"@
        + "    }\n"@ + "}\n"@ + "\n"@ + "impl<NK: Key> Id<NK> for "@ + n.name@ + "<NK> {\n"@
        + "    fn get_id(&self) -> NK {\n"@ + "        self.id\n"@ + "    }\n"@ + "\n"@
        + "    fn set_id(&mut self, id: NK) {\n"@ + "        self.id = id\n"@ + "    }\n"@ + "}\n"@
}

/// The `Name` implementation, written when the node has a field called `name`.
pub open spec fn rust_node_name(n: NodeExp) -> Seq<char> {
    match field_named(n.fields@, "name"@) {
        Some(f) => "\n"@ + "impl<NK> Name for "@ + n.name@ + "<NK> {\n"@ + "    type Name = "@
            + schema_text(f.field_type) + ";\n"@
            + "    fn get_name(&self) -> Option<&Self::Name> {\n"@ + "       Some(&self.name)\n"@
            + "    }\n"@ + "}\n"@,
        None => Seq::empty(),
    }
}

/// The `Display` implementation of the node struct.
pub open spec fn rust_node_display(n: NodeExp) -> Seq<char> {
    "\n"@ + "impl<EK: std::fmt::Display + Key> std::fmt::Display for "@ + n.name@ + "<EK> {\n"@
        + "    fn fmt(&self, f: &mut std::fmt::Formatter<'_>) -> std::fmt::Result {\n"@
        + "        write!(f, \"{}({})\", self.get_type(), self.get_id())\n"@ + "    }\n"@ + "}\n"@
}

/// The whole Rust file written for a node.
pub open spec fn rust_node_file(n: NodeExp) -> Seq<char> {
    rust_node_imports() + rust_node_decl(n) + rust_node_new(n) + rust_node_typed_id(n)
        + rust_node_name(n) + rust_node_display(n)
}

fn write_doc_lines(s: &mut String, prefix: &str, docs: &Vec<String>)
    ensures
        final(s)@ == old(s)@ + concat_map(docs@, |c: String| prefix@ + c@ + "\n"@),
{
    let ghost f = |c: String| prefix@ + c@ + "\n"@;
    let n = docs.len();
    let mut i: usize = 0;
    while i < n
        invariant
            n == docs@.len(),
            i <= n,
            f == (|c: String| prefix@ + c@ + "\n"@),
            s@ == old(s)@ + concat_map(docs@.subrange(0, i as int), f),
        decreases n - i,
    {
        proof {
            lemma_concat_map_step(docs@, i as int, f);
        }
        let ghost before = s@;
        s.append(prefix);
        s.append(docs[i].as_str());
        s.append("\n");
        assert(s@ =~= before + f(docs@[i as int]));
        i = i + 1;
    }
    proof {
        lemma_concat_map_all(docs@, f);
    }
}

fn write_node_fields(s: &mut String, fields: &Vec<FieldValue>)
    ensures
        final(s)@ == old(s)@ + concat_map(fields@, node_field_decl()),
{
    let n = fields.len();
    let mut i: usize = 0;
    while i < n
        invariant
            n == fields@.len(),
            i <= n,
            s@ == old(s)@ + concat_map(fields@.subrange(0, i as int), node_field_decl()),
        decreases n - i,
    {
        proof {
            lemma_concat_map_step(fields@, i as int, node_field_decl());
        }
        let ghost before = s@;
        let f = &fields[i];
        s.append(",\n");
        write_doc_lines(s, "   /// ", &f.comments.doc);
        assert(node_field_doc_line() == (|c: String| "   /// "@ + c@ + "\n"@));
        s.append("    ");
        match f.visibility {
            Visibility::Local => s.append("pub(crate) "),
            Visibility::Public => s.append("pub "),
        }
        s.append(f.name.as_str());
        s.append(": ");
        let ty = f.field_type.to_rust_type();
        s.append(ty.as_str());
        assert(s@ =~= before + node_field_decl()(fields@[i as int]));
        i = i + 1;
    }
    proof {
        lemma_concat_map_all(fields@, node_field_decl());
    }
}

fn write_new_params(s: &mut String, fields: &Vec<FieldValue>)
    ensures
        final(s)@ == old(s)@ + concat_map(fields@, node_new_param()),
{
    let n = fields.len();
    let mut i: usize = 0;
    while i < n
        invariant
            n == fields@.len(),
            i <= n,
            s@ == old(s)@ + concat_map(fields@.subrange(0, i as int), node_new_param()),
        decreases n - i,
    {
        proof {
            lemma_concat_map_step(fields@, i as int, node_new_param());
        }
        let ghost before = s@;
        let ty = fields[i].field_type.to_rust_type();
        s.append(",\n");
        s.append("       ");
        s.append(fields[i].name.as_str());
        s.append(": ");
        s.append(ty.as_str());
        assert(s@ =~= before + node_new_param()(fields@[i as int]));
        i = i + 1;
    }
    proof {
        lemma_concat_map_all(fields@, node_new_param());
    }
}

fn write_new_fields(s: &mut String, fields: &Vec<FieldValue>)
    ensures
        final(s)@ == old(s)@ + concat_map(fields@, node_new_field()),
{
    let n = fields.len();
    let mut i: usize = 0;
    while i < n
        invariant
            n == fields@.len(),
            i <= n,
            s@ == old(s)@ + concat_map(fields@.subrange(0, i as int), node_new_field()),
        decreases n - i,
    {
        proof {
            lemma_concat_map_step(fields@, i as int, node_new_field());
        }
        let ghost before = s@;
        s.append(",\n");
        s.append("           ");
        s.append(fields[i].name.as_str());
        assert(s@ =~= before + node_new_field()(fields@[i as int]));
        i = i + 1;
    }
    proof {
        lemma_concat_map_all(fields@, node_new_field());
    }
}

fn write_node_decl(s: &mut String, n: &NodeExp)
    ensures
        final(s)@ == old(s)@ + rust_node_decl(*n),
{
    let ghost start = s@;
    s.append("\n");
    write_doc_lines(s, "/// ", &n.comments.doc);
    assert(node_doc_line() == (|c: String| "/// "@ + c@ + "\n"@));
    s.append("#[derive(Clone, Debug, Serialize, Deserialize)]\n");
    s.append("pub struct ");
    s.append(n.name.as_str());
    s.append("<NK>");
    s.append("   {\n");
    s.append("    pub(crate) id: NK");
    write_node_fields(s, &n.fields);
    s.append("\n");
    s.append("}\n");
    assert(s@ =~= start + rust_node_decl(*n));
}

fn write_node_new(s: &mut String, n: &NodeExp)
    ensures
        final(s)@ == old(s)@ + rust_node_new(*n),
{
    let ghost start = s@;
    s.append("\n");
    s.append("impl<NK> ");
    s.append(n.name.as_str());
    s.append("<NK> {\n");
    s.append("    pub fn new(\n");
    s.append("       id: NK");
    write_new_params(s, &n.fields);
    let ghost mid = s@;
    s.append("\n");
    s.append("   ) -> Self {\n");
    s.append("        Self {\n");
    s.append("           id");
    write_new_fields(s, &n.fields);
    s.append("\n");
    s.append("        }\n");
    s.append("    }\n");
    s.append("}\n");
    assert(s@ =~= start + rust_node_new(*n));
}

fn write_node_typed_id(s: &mut String, n: &NodeExp)
    ensures
        final(s)@ == old(s)@ + rust_node_typed_id(*n),
{
    let ghost start = s@;
    s.append("\n");
    s.append("impl<NK> Typed for ");
    s.append(n.name.as_str());
    s.append("<NK> {\n");
    s.append("    type Type = NodeType;\n");
    s.append("    fn get_type(&self) -> NodeType {\n");
    s.append("       NodeType::");
    s.append(n.name.as_str());
    s.append("\n");
    s.append("    }\n");
    s.append("}\n");
    s.append("\n");
    s.append("impl<NK: Key> Id<NK> for ");
    s.append(n.name.as_str());
    s.append("<NK> {\n");
    s.append("    fn get_id(&self) -> NK {\n");
    s.append("        self.id\n");
    s.append("    }\n");
    s.append("\n");
    s.append("    fn set_id(&mut self, id: NK) {\n");
    s.append("        self.id = id\n");
    s.append("    }\n");
    s.append("}\n");
    assert(s@ =~= start + rust_node_typed_id(*n));
}

fn write_node_name(s: &mut String, n: &NodeExp)
    ensures
        final(s)@ == old(s)@ + rust_node_name(*n),
{
    let ghost start = s@;
    match get_field(&n.fields, "name") {
        Some(f) => {
            let name_type = f.field_type.to_schema_text();
            s.append("\n");
            s.append("impl<NK> Name for ");
            s.append(n.name.as_str());
            s.append("<NK> {\n");
            s.append("    type Name = ");
            s.append(name_type.as_str());
            s.append(";\n");
            s.append("    fn get_name(&self) -> Option<&Self::Name> {\n");
            s.append("       Some(&self.name)\n");
            s.append("    }\n");
            s.append("}\n");
            proof {
                reveal_strlit("name");
            }
            assert(s@ =~= start + rust_node_name(*n));
        },
        None => {
            assert(s@ =~= start + rust_node_name(*n));
        },
    }
}

fn write_node_display(s: &mut String, n: &NodeExp)
    ensures
        final(s)@ == old(s)@ + rust_node_display(*n),
{
    let ghost start = s@;
    s.append("\n");
    s.append("impl<EK: std::fmt::Display + Key> std::fmt::Display for ");
    s.append(n.name.as_str());
    s.append("<EK> {\n");
    s.append("    fn fmt(&self, f: &mut std::fmt::Formatter<'_>) -> std::fmt::Result {\n");
    s.append("        write!(f, \"{}({})\", self.get_type(), self.get_id())\n");
    s.append("    }\n");
    s.append("}\n");
    assert(s@ =~= start + rust_node_display(*n));
}

/// The text of the Rust file written for a node.
pub fn rust_node_content(n: &NodeExp) -> (r: String)
    ensures
        r@ == rust_node_file(*n),
{
    let mut s = String::from_str(
        "#[allow(unused_imports)]\nuse super::super::super::imports::*;\n#[allow(unused_imports)]\nuse super::super::imports::*;\n#[allow(unused_imports)]\nuse super::super::*;\n#[allow(unused_imports)]\nuse std::collections::HashMap;\nuse typed_graph::*;\nuse serde::{Serialize, Deserialize};\n",
    );
    write_node_decl(&mut s, n);
    write_node_new(&mut s, n);
    write_node_typed_id(&mut s, n);
    write_node_name(&mut s, n);
    write_node_display(&mut s, n);
    assert(s@ =~= rust_node_file(*n));
    s
}

impl CodeGenerator<Rust> for NodeExp {
    open spec fn filename_text(&self) -> Seq<char> {
        snake_text(self.name@)
    }

    open spec fn generated(&self, p: Seq<char>) -> Map<Seq<char>, Option<Seq<char>>> {
        one_file(spec_join_path(p, snake_text(self.name@) + ".rs"@), rust_node_file(*self))
    }

    fn get_filename(&self) -> (r: String) {
        to_snake_case(self.name.as_str())
    }

    fn aggregate_content(&self, p: &str) -> (r: GenResult<GeneratedCode>) {
        let mut file = CodeGenerator::<Rust>::get_filename(self);
        file.append(".rs");
        let path = join_path(p, file.as_str());
        let s = rust_node_content(self);
        Ok(single_file(path, s))
    }
}

/// The imports at the top of a generated Rust struct file.
pub open spec fn rust_struct_imports() -> Seq<char> {
    "#[allow(unused_imports)]\nuse super::super::super::imports::*;\n#[allow(unused_imports)]\nuse super::super::imports::*;\n#[allow(unused_imports)]\nuse super::super::*;\n#[allow(unused_imports)]\nuse indexmap::IndexMap;\nuse serde::{Serialize, Deserialize};\n"@
}

/// The traits a generated Rust struct derives.
pub open spec fn struct_derives(st: StructExp) -> Seq<Seq<char>> {
    seq!["Clone"@, "Debug"@] + derive_values(st.attributes.functions@)
}

/// A parameter of the constructor of a struct.
pub open spec fn struct_new_param() -> spec_fn(FieldValue) -> Seq<char> {
    |f: FieldValue| "       "@ + f.name@ + ": "@ + rust_type(f.field_type) + ",\n"@
}

/// A field set by the constructor of a struct.
pub open spec fn struct_new_field() -> spec_fn(FieldValue) -> Seq<char> {
    |f: FieldValue| "           "@ + f.name@ + ",\n"@
}

/// The declaration of a generated Rust struct.
pub open spec fn rust_struct_decl(st: StructExp) -> Seq<char> {
    "\n"@ + rust_comments_text(st.comments, fmt_at(0, true)) + "#[derive("@ + join_texts(
        struct_derives(st),
        ", "@,
    ) + ")]\n"@ + "pub struct "@ + st.name@ + generics_decl(st.generics@) + " {\n"@
        + rust_fields_text(st.fields@, fmt_at(1, true)) + "}\n"@
}

/// The constructor of a generated Rust struct.
pub open spec fn rust_struct_new(st: StructExp) -> Seq<char> {
    let g = generics_decl(st.generics@);
    "\n"@ + "#[allow(unused)]\n"@ + "impl"@ + g + " "@ + st.name@ + g + " {\n"@
        + "    pub fn new(\n"@ + concat_map(st.fields@, struct_new_param()) + "\n"@
        + "   ) -> Self {\n"@ + "        Self {\n"@ + concat_map(st.fields@, struct_new_field())
        + "\n"@ + "        }\n"@ + "    }\n"@ + "}\n"@
}

/// The whole Rust file written for a struct.
pub open spec fn rust_struct_file(st: StructExp) -> Seq<char> {
    rust_struct_imports() + rust_struct_decl(st) + rust_struct_new(st)
}

fn write_struct_params(s: &mut String, fields: &Vec<FieldValue>)
    ensures
        final(s)@ == old(s)@ + concat_map(fields@, struct_new_param()),
{
    let n = fields.len();
    let mut i: usize = 0;
    while i < n
        invariant
            n == fields@.len(),
            i <= n,
            s@ == old(s)@ + concat_map(fields@.subrange(0, i as int), struct_new_param()),
        decreases n - i,
    {
        proof {
            lemma_concat_map_step(fields@, i as int, struct_new_param());
        }
        let ghost before = s@;
        let ty = fields[i].field_type.to_rust_type();
        s.append("       ");
        s.append(fields[i].name.as_str());
        s.append(": ");
        s.append(ty.as_str());
        s.append(",\n");
        assert(s@ =~= before + struct_new_param()(fields@[i as int]));
        i = i + 1;
    }
    proof {
        lemma_concat_map_all(fields@, struct_new_param());
    }
}

fn write_struct_fields_init(s: &mut String, fields: &Vec<FieldValue>)
    ensures
        final(s)@ == old(s)@ + concat_map(fields@, struct_new_field()),
{
    let n = fields.len();
    let mut i: usize = 0;
    while i < n
        invariant
            n == fields@.len(),
            i <= n,
            s@ == old(s)@ + concat_map(fields@.subrange(0, i as int), struct_new_field()),
        decreases n - i,
    {
        proof {
            lemma_concat_map_step(fields@, i as int, struct_new_field());
        }
        let ghost before = s@;
        s.append("           ");
        s.append(fields[i].name.as_str());
        s.append(",\n");
        assert(s@ =~= before + struct_new_field()(fields@[i as int]));
        i = i + 1;
    }
    proof {
        lemma_concat_map_all(fields@, struct_new_field());
    }
}

fn struct_derive_list(st: &StructExp) -> (r: String)
    ensures
        r@ == join_texts(struct_derives(*st), ", "@),
{
    let mut v: Vec<String> = Vec::new();
    v.push(String::from_str("Clone"));
    v.push(String::from_str("Debug"));
    assert(texts(v@) =~= seq!["Clone"@, "Debug"@]);
    push_derive_values(&mut v, &st.attributes);
    join_strings(&v, ", ")
}

/// The text of the Rust file written for a struct.
#[verifier::rlimit(40)]
pub fn rust_struct_content(st: &StructExp) -> (r: String)
    ensures
        r@ == rust_struct_file(*st),
{
    let generics = write_generics_decl(&st.generics);
    let derives = struct_derive_list(st);
    let mut s = String::from_str(
        "#[allow(unused_imports)]\nuse super::super::super::imports::*;\n#[allow(unused_imports)]\nuse super::super::imports::*;\n#[allow(unused_imports)]\nuse super::super::*;\n#[allow(unused_imports)]\nuse indexmap::IndexMap;\nuse serde::{Serialize, Deserialize};\n",
    );
    let ghost start = s@;
    s.append("\n");
    write_comments(&mut s, &st.comments, FieldFormatter { indents: 0, include_visibility: true });
    s.append("#[derive(");
    s.append(derives.as_str());
    s.append(")]\n");
    s.append("pub struct ");
    s.append(st.name.as_str());
    s.append(generics.as_str());
    s.append(" {\n");
    write_fields(&mut s, &st.fields, FieldFormatter { indents: 1, include_visibility: true });
    s.append("}\n");
    let ghost mid = s@;
    assert(mid =~= start + rust_struct_decl(*st));
    s.append("\n");
    s.append("#[allow(unused)]\n");
    s.append("impl");
    s.append(generics.as_str());
    s.append(" ");
    s.append(st.name.as_str());
    s.append(generics.as_str());
    s.append(" {\n");
    s.append("    pub fn new(\n");
    write_struct_params(&mut s, &st.fields);
    s.append("\n");
    s.append("   ) -> Self {\n");
    s.append("        Self {\n");
    write_struct_fields_init(&mut s, &st.fields);
    s.append("\n");
    s.append("        }\n");
    s.append("    }\n");
    s.append("}\n");
    assert(s@ =~= mid + rust_struct_new(*st));
    assert(s@ =~= rust_struct_file(*st));
    s
}

impl CodeGenerator<Rust> for StructExp {
    open spec fn filename_text(&self) -> Seq<char> {
        snake_text(self.name@)
    }

    open spec fn generated(&self, p: Seq<char>) -> Map<Seq<char>, Option<Seq<char>>> {
        one_file(spec_join_path(p, snake_text(self.name@) + ".rs"@), rust_struct_file(*self))
    }

    fn get_filename(&self) -> (r: String) {
        to_snake_case(self.name.as_str())
    }

    fn aggregate_content(&self, p: &str) -> (r: GenResult<GeneratedCode>) {
        let mut file = CodeGenerator::<Rust>::get_filename(self);
        file.append(".rs");
        let path = join_path(p, file.as_str());
        let s = rust_struct_content(self);
        Ok(single_file(path, s))
    }
}

} // verus!
