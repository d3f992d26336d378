use vstd::prelude::*;
use vstd::string::*;

use crate::code_generator::{CodeGenerator, Rust};
use crate::error::GenResult;
use crate::generated_code::{spec_add_content, GeneratedCode};
use crate::paths::{join_path, spec_join_path};
use crate::project::str_equal;
use crate::rust_fields::{
    rust_alias_line, rust_comments_text, rust_fields_text, write_comments, write_fields,
    FieldFormatter,
};
use crate::schema::{AttributeFunction, Attributes, EnumExp, EnumVarient, StructExp};
use crate::text::{join_strings, join_texts, snake_text, texts, to_snake_case};
use crate::to_rust_type::ToRustType;
use crate::types::rust_type;

verus! {

/// The files of a generator that writes one file.
pub open spec fn one_file(path: Seq<char>, content: Seq<char>) -> Map<Seq<char>, Option<Seq<char>>> {
    spec_add_content(Map::empty(), path, content)
}

/// A collection of generated code holding one file.
pub fn single_file(path: String, content: String) -> (r: GeneratedCode)
    ensures
        r@ == one_file(path@, content@),
{
    let mut g = GeneratedCode::new();
    g.add_content(path, content);
    g
}

/// The values of the attribute functions called `derive`, in order.
pub open spec fn derive_values(fs: Seq<AttributeFunction>) -> Seq<Seq<char>>
    decreases fs.len(),
{
    if fs.len() == 0 {
        Seq::empty()
    } else {
        derive_values(fs.drop_last()) + if fs.last().name@ == "derive"@ {
            texts(fs.last().values@)
        } else {
            Seq::empty()
        }
    }
}

/// Add the values of the `derive` attribute functions to `v`.
pub fn push_derive_values(v: &mut Vec<String>, a: &Attributes)
    ensures
        texts(final(v)@) == texts(old(v)@) + derive_values(a.functions@),
{
    let n = a.functions.len();
    let mut i: usize = 0;
    while i < n
        invariant
            n == a.functions@.len(),
            i <= n,
            texts(v@) == texts(old(v)@) + derive_values(a.functions@.subrange(0, i as int)),
        decreases n - i,
    {
        proof {
            assert(a.functions@.subrange(0, i + 1).drop_last() =~= a.functions@.subrange(0, i as int));
        }
        let f = &a.functions[i];
        let ghost before = texts(v@);
        if str_equal(f.name.as_str(), "derive") {
            let m = f.values.len();
            let mut j: usize = 0;
            while j < m
                invariant
                    m == f.values@.len(),
                    j <= m,
                    texts(v@) == before + texts(f.values@.subrange(0, j as int)),
                decreases m - j,
            {
                let ghost prev = v@;
                v.push(f.values[j].clone());
                proof {
                    assert(texts(v@) =~= texts(prev).push(f.values@[j as int]@));
                    assert(texts(f.values@.subrange(0, j + 1)) =~= texts(
                        f.values@.subrange(0, j as int),
                    ).push(f.values@[j as int]@));
                }
                j = j + 1;
            }
            proof {
                assert(f.values@.subrange(0, m as int) =~= f.values@);
            }
        }
        proof {
            assert(texts(v@) =~= texts(old(v)@) + derive_values(a.functions@.subrange(0, i + 1)));
        }
        i = i + 1;
    }
    proof {
        assert(a.functions@.subrange(0, n as int) =~= a.functions@);
    }
}

/// `<A, B>` for the generic letters, nothing when there are none.
pub open spec fn generics_decl(letters: Seq<String>) -> Seq<char> {
    if letters.len() == 0 {
        Seq::empty()
    } else {
        "<"@ + join_texts(texts(letters), ", "@) + ">"@
    }
}

pub fn write_generics_decl(letters: &Vec<String>) -> (r: String)
    ensures
        r@ == generics_decl(letters@),
{
    if letters.len() == 0 {
        String::new()
    } else {
        let mut r = String::from_str("<");
        let j = join_strings(letters, ", ");
        r.append(j.as_str());
        r.append(">");
        r
    }
}

/// The formatter of items directly inside an enum or a struct.
pub open spec fn fmt_at(n: usize, vis: bool) -> FieldFormatter {
    FieldFormatter { indents: n, include_visibility: vis }
}

/// Every variant of the enum carries no data.
pub open spec fn only_units(vs: Seq<EnumVarient>) -> bool {
    forall|i: int| 0 <= i < vs.len() ==> vs[i] is Unit
}

/// The traits a generated Rust enum derives.
pub open spec fn enum_derives(e: EnumExp) -> Seq<Seq<char>> {
    seq!["Clone"@, "Debug"@] + (if only_units(e.varients@) {
        seq![
            "Copy"@,
            "Serialize"@,
            "Deserialize"@,
            "PartialEq"@,
            "Eq"@,
            "PartialOrd"@,
            "Ord"@,
            "Hash"@,
        ]
    } else {
        Seq::empty()
    }) + derive_values(e.attributes.functions@)
}

/// The serde lines of a variant: `skip`, `untagged` and the aliases.
pub open spec fn variant_attr_lines(a: Attributes) -> Seq<char> {
    (if a.skipped {
        "    #[serde(skip)]\n"@
    } else {
        Seq::empty()
    }) + (if a.untagged {
        "    #[serde(untagged)]\n"@
    } else {
        Seq::empty()
    }) + rust_alias_line("    "@, a.aliases@)
}

/// One variant in the declaration of a generated Rust enum.
pub open spec fn rust_variant_text(v: EnumVarient) -> Seq<char> {
    match v {
        EnumVarient::Struct { name, comments, attributes, fields } => rust_comments_text(
            comments,
            fmt_at(1, false),
        ) + variant_attr_lines(attributes) + "    "@ + name@ + " {\n"@ + rust_fields_text(
            fields@,
            fmt_at(2, false),
        ) + "    },\n"@,
        EnumVarient::Opaque { name, comments, attributes, ty } => rust_comments_text(
            comments,
            fmt_at(1, false),
        ) + variant_attr_lines(attributes) + "    "@ + name@ + " ("@ + rust_type(ty) + "),\n"@,
        EnumVarient::Unit { name, comments, attributes } => rust_comments_text(
            comments,
            fmt_at(1, false),
        ) + variant_attr_lines(attributes) + "    "@ + name@ + ",\n"@,
    }
}

pub open spec fn rust_variants_text(vs: Seq<EnumVarient>) -> Seq<char>
    decreases vs.len(),
{
    if vs.len() == 0 {
        Seq::empty()
    } else {
        rust_variants_text(vs.drop_last()) + rust_variant_text(vs.last())
    }
}

/// One arm of the `Display` implementation of a generated Rust enum.
pub open spec fn display_arm(enum_name: Seq<char>, v: EnumVarient) -> Seq<char> {
    match v {
        EnumVarient::Struct { name, .. } => "            "@ + enum_name + "::"@ + name@
            + "{ .. } => write!(f, \""@ + name@ + "\"),\n"@,
        EnumVarient::Opaque { name, .. } => "            "@ + enum_name + "::"@ + name@
            + "(_) => write!(f, \""@ + name@ + "\"),\n"@,
        EnumVarient::Unit { name, .. } => "            "@ + enum_name + "::"@ + name@
            + " => write!(f, \""@ + name@ + "\"),\n"@,
    }
}

pub open spec fn display_arms(enum_name: Seq<char>, vs: Seq<EnumVarient>) -> Seq<char>
    decreases vs.len(),
{
    if vs.len() == 0 {
        Seq::empty()
    } else {
        display_arms(enum_name, vs.drop_last()) + display_arm(enum_name, vs.last())
    }
}

/// The imports at the top of a generated Rust enum file.
pub open spec fn rust_enum_imports() -> Seq<char> {
    "#[allow(unused_imports)]\nuse super::super::*;\n#[allow(unused_imports)]\nuse serde::{Serialize, Deserialize, self};\n#[allow(unused_imports)]\nuse indexmap::IndexMap;\n"@
}

/// The declaration of a generated Rust enum.
pub open spec fn rust_enum_decl(e: EnumExp) -> Seq<char> {
    "\n"@ + rust_comments_text(e.comments, fmt_at(0, false)) + "#[derive("@ + join_texts(
        enum_derives(e),
        ", "@,
    ) + ")]\n"@ + (if e.attributes.untagged {
        "#[serde(untagged)]\n"@
    } else {
        Seq::empty()
    }) + "pub enum "@ + e.name@ + generics_decl(e.generics@) + " {\n"@ + rust_variants_text(
        e.varients@,
    ) + "}\n"@
}

/// The `Display` implementation of a generated Rust enum: the name of the variant.
pub open spec fn rust_enum_display(e: EnumExp) -> Seq<char> {
    let g = generics_decl(e.generics@);
    "\n"@ + "impl"@ + g + " std::fmt::Display for "@ + e.name@ + g + " {\n"@
        + "    fn fmt(&self, f: &mut std::fmt::Formatter<'_>) -> std::fmt::Result {\n"@
        + "        match self {\n"@ + display_arms(e.name@, e.varients@)
        + "        }\n    }\n}\n"@
}

/// The whole file written for an enum.
pub open spec fn rust_enum_file(e: EnumExp) -> Seq<char> {
    rust_enum_imports() + rust_enum_decl(e) + rust_enum_display(e)
}

fn is_unit(v: &EnumVarient) -> (r: bool)
    ensures
        r == v is Unit,
{
    match v {
        EnumVarient::Unit { .. } => true,
        _ => false,
    }
}

fn all_units(vs: &Vec<EnumVarient>) -> (r: bool)
    ensures
        r == only_units(vs@),
{
    let n = vs.len();
    let mut i: usize = 0;
    while i < n
        invariant
            n == vs@.len(),
            i <= n,
            forall|j: int| 0 <= j < i ==> vs@[j] is Unit,
        decreases n - i,
    {
        if !is_unit(&vs[i]) {
            return false;
        }
        i = i + 1;
    }
    true
}

pub(crate) fn push_str(v: &mut Vec<String>, t: &str)
    ensures
        texts(final(v)@) == texts(old(v)@).push(t@),
{
    let ghost before = v@;
    v.push(String::from_str(t));
    assert(texts(v@) =~= texts(before).push(t@));
}

fn enum_derive_list(e: &EnumExp) -> (r: String)
    ensures
        r@ == join_texts(enum_derives(*e), ", "@),
{
    let mut v: Vec<String> = Vec::new();
    push_str(&mut v, "Clone");
    push_str(&mut v, "Debug");
    assert(texts(v@) =~= seq!["Clone"@, "Debug"@]);
    let ghost base = texts(v@);
    if all_units(&e.varients) {
        push_str(&mut v, "Copy");
        push_str(&mut v, "Serialize");
        push_str(&mut v, "Deserialize");
        push_str(&mut v, "PartialEq");
        push_str(&mut v, "Eq");
        push_str(&mut v, "PartialOrd");
        push_str(&mut v, "Ord");
        push_str(&mut v, "Hash");
    }
    let ghost mid = texts(v@);
    assert(mid =~= base + (if only_units(e.varients@) {
        seq![
            "Copy"@,
            "Serialize"@,
            "Deserialize"@,
            "PartialEq"@,
            "Eq"@,
            "PartialOrd"@,
            "Ord"@,
            "Hash"@,
        ]
    } else {
        Seq::empty()
    }));
    push_derive_values(&mut v, &e.attributes);
    assert(texts(v@) =~= enum_derives(*e));
    join_strings(&v, ", ")
}

fn write_variant_attrs(s: &mut String, a: &Attributes)
    ensures
        final(s)@ == old(s)@ + variant_attr_lines(*a),
{
    let ghost start = s@;
    if a.skipped {
        s.append("    #[serde(skip)]\n");
    }
    if a.untagged {
        s.append("    #[serde(untagged)]\n");
    }
    let ghost mid = s@;
    assert(mid =~= start + (if a.skipped {
        "    #[serde(skip)]\n"@
    } else {
        Seq::empty()
    }) + (if a.untagged {
        "    #[serde(untagged)]\n"@
    } else {
        Seq::empty()
    }));
    if a.aliases.len() > 0 {
        let lits = crate::text::join_wrapped(&a.aliases, "alias=\"", "\"", ", ");
        s.append("    ");
        s.append("#[serde(");
        s.append(lits.as_str());
        s.append(")]\n");
    }
    assert(s@ =~= mid + rust_alias_line("    "@, a.aliases@));
}

fn write_variant(s: &mut String, v: &EnumVarient)
    ensures
        final(s)@ == old(s)@ + rust_variant_text(*v),
{
    let ghost start = s@;
    let one = FieldFormatter { indents: 1, include_visibility: false };
    match v {
        EnumVarient::Struct { name, comments, attributes, fields } => {
            write_comments(s, comments, one);
            write_variant_attrs(s, attributes);
            s.append("    ");
            s.append(name.as_str());
            s.append(" {\n");
            write_fields(s, fields, FieldFormatter { indents: 2, include_visibility: false });
            s.append("    },\n");
        },
        EnumVarient::Opaque { name, comments, attributes, ty } => {
            let field_type = ty.to_rust_type();
            write_comments(s, comments, one);
            write_variant_attrs(s, attributes);
            s.append("    ");
            s.append(name.as_str());
            s.append(" (");
            s.append(field_type.as_str());
            s.append("),\n");
        },
        EnumVarient::Unit { name, comments, attributes } => {
            write_comments(s, comments, one);
            write_variant_attrs(s, attributes);
            s.append("    ");
            s.append(name.as_str());
            s.append(",\n");
        },
    }
    assert(s@ =~= start + rust_variant_text(*v));
}

fn write_display_arm(s: &mut String, enum_name: &str, v: &EnumVarient)
    ensures
        final(s)@ == old(s)@ + display_arm(enum_name@, *v),
{
    let ghost start = s@;
    s.append("            ");
    s.append(enum_name);
    s.append("::");
    match v {
        EnumVarient::Struct { name, .. } => {
            s.append(name.as_str());
            s.append("{ .. } => write!(f, \"");
            s.append(name.as_str());
        },
        EnumVarient::Opaque { name, .. } => {
            s.append(name.as_str());
            s.append("(_) => write!(f, \"");
            s.append(name.as_str());
        },
        EnumVarient::Unit { name, .. } => {
            s.append(name.as_str());
            s.append(" => write!(f, \"");
            s.append(name.as_str());
        },
    }
    s.append("\"),\n");
    assert(s@ =~= start + display_arm(enum_name@, *v));
}

fn write_variants(s: &mut String, vs: &Vec<EnumVarient>)
    ensures
        final(s)@ == old(s)@ + rust_variants_text(vs@),
{
    let n = vs.len();
    let mut i: usize = 0;
    while i < n
        invariant
            n == vs@.len(),
            i <= n,
            s@ == old(s)@ + rust_variants_text(vs@.subrange(0, i as int)),
        decreases n - i,
    {
        proof {
            assert(vs@.subrange(0, i + 1).drop_last() =~= vs@.subrange(0, i as int));
        }
        let ghost before = s@;
        write_variant(s, &vs[i]);
        proof {
            assert(s@ =~= before + rust_variant_text(vs@[i as int]));
        }
        i = i + 1;
    }
    proof {
        assert(vs@.subrange(0, n as int) =~= vs@);
    }
}

fn write_display_arms(s: &mut String, enum_name: &str, vs: &Vec<EnumVarient>)
    ensures
        final(s)@ == old(s)@ + display_arms(enum_name@, vs@),
{
    let n = vs.len();
    let mut i: usize = 0;
    while i < n
        invariant
            n == vs@.len(),
            i <= n,
            s@ == old(s)@ + display_arms(enum_name@, vs@.subrange(0, i as int)),
        decreases n - i,
    {
        proof {
            assert(vs@.subrange(0, i + 1).drop_last() =~= vs@.subrange(0, i as int));
        }
        let ghost before = s@;
        write_display_arm(s, enum_name, &vs[i]);
        proof {
            assert(s@ =~= before + display_arm(enum_name@, vs@[i as int]));
        }
        i = i + 1;
    }
    proof {
        assert(vs@.subrange(0, n as int) =~= vs@);
    }
}

fn write_enum_decl(s: &mut String, e: &EnumExp, generics: &str)
    requires
        generics@ == generics_decl(e.generics@),
    ensures
        final(s)@ == old(s)@ + rust_enum_decl(*e),
{
    let ghost start = s@;
    let derives = enum_derive_list(e);
    s.append("\n");
    write_comments(s, &e.comments, FieldFormatter { indents: 0, include_visibility: false });
    s.append("#[derive(");
    s.append(derives.as_str());
    s.append(")]\n");
    if e.attributes.untagged {
        s.append("#[serde(untagged)]\n");
    }
    let ghost mid = s@;
    assert(mid =~= start + "\n"@ + rust_comments_text(e.comments, fmt_at(0, false)) + "#[derive("@
        + join_texts(enum_derives(*e), ", "@) + ")]\n"@ + (if e.attributes.untagged {
        "#[serde(untagged)]\n"@
    } else {
        Seq::empty()
    }));
    s.append("pub enum ");
    s.append(e.name.as_str());
    s.append(generics);
    s.append(" {\n");
    write_variants(s, &e.varients);
    s.append("}\n");
    assert(s@ =~= mid + "pub enum "@ + e.name@ + generics_decl(e.generics@) + " {\n"@
        + rust_variants_text(e.varients@) + "}\n"@);
    assert(s@ =~= start + rust_enum_decl(*e));
}

fn write_enum_display(s: &mut String, e: &EnumExp, generics: &str)
    requires
        generics@ == generics_decl(e.generics@),
    ensures
        final(s)@ == old(s)@ + rust_enum_display(*e),
{
    let ghost start = s@;
    s.append("\n");
    s.append("impl");
    s.append(generics);
    s.append(" std::fmt::Display for ");
    s.append(e.name.as_str());
    s.append(generics);
    s.append(" {\n");
    s.append("    fn fmt(&self, f: &mut std::fmt::Formatter<'_>) -> std::fmt::Result {\n");
    s.append("        match self {\n");
    write_display_arms(s, e.name.as_str(), &e.varients);
    s.append("        }\n    }\n}\n");
    assert(s@ =~= start + rust_enum_display(*e));
}

/// The text of the Rust file written for an enum.
pub fn rust_enum_content(e: &EnumExp) -> (r: String)
    ensures
        r@ == rust_enum_file(*e),
{
    let generics = write_generics_decl(&e.generics);
    let mut s = String::from_str(
        "#[allow(unused_imports)]\nuse super::super::*;\n#[allow(unused_imports)]\nuse serde::{Serialize, Deserialize, self};\n#[allow(unused_imports)]\nuse indexmap::IndexMap;\n",
    );
    write_enum_decl(&mut s, e, generics.as_str());
    write_enum_display(&mut s, e, generics.as_str());
    assert(s@ =~= rust_enum_file(*e));
    s
}

impl CodeGenerator<Rust> for EnumExp {
    open spec fn filename_text(&self) -> Seq<char> {
        snake_text(self.name@)
    }

    open spec fn generated(&self, p: Seq<char>) -> Map<Seq<char>, Option<Seq<char>>> {
        one_file(spec_join_path(p, snake_text(self.name@) + ".rs"@), rust_enum_file(*self))
    }

    fn get_filename(&self) -> (r: String) {
        to_snake_case(self.name.as_str())
    }

    fn aggregate_content(&self, p: &str) -> (r: GenResult<GeneratedCode>) {
        let mut file = CodeGenerator::<Rust>::get_filename(self);
        file.append(".rs");
        let path = join_path(p, file.as_str());
        let s = rust_enum_content(self);
        Ok(single_file(path, s))
    }
}

} // verus!
