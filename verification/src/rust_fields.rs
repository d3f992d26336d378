use vstd::prelude::*;
use vstd::string::*;

use crate::schema::{Attributes, Comments, FieldValue, Visibility};
use crate::text::{indent_text, indents, join_texts, join_wrapped, texts, wrap_texts};
use crate::to_rust_type::ToRustType;
use crate::types::rust_type;

verus! {

/// How fields and comments are laid out: the indentation level, and whether
/// fields carry their visibility.
#[derive(Clone, Copy)]
pub struct FieldFormatter {
    pub indents: usize,
    pub include_visibility: bool,
}

impl FieldFormatter {
    /// Four spaces for each level of indentation.
    pub fn create_indents(&self) -> (r: String)
        ensures
            r@ == indent_text(self.indents as nat),
    {
        indents(self.indents)
    }
}

/// Rust documentation lines, one `/// ` line for each of `docs`, after `space`.
pub open spec fn rust_doc_lines(space: Seq<char>, docs: Seq<String>) -> Seq<char>
    decreases docs.len(),
{
    if docs.len() == 0 {
        Seq::empty()
    } else {
        rust_doc_lines(space, docs.drop_last()) + space + "/// "@ + docs.last()@ + "\n"@
    }
}

/// The documentation of `c` as Rust comments at the given indentation.
pub open spec fn rust_comments_text(c: Comments, fmt: FieldFormatter) -> Seq<char> {
    rust_doc_lines(indent_text(fmt.indents as nat), c.doc@)
}

/// The serde attribute that lists the aliases of an item, if it has any.
pub open spec fn rust_alias_line(space: Seq<char>, aliases: Seq<String>) -> Seq<char> {
    if aliases.len() == 0 {
        Seq::empty()
    } else {
        space + "#[serde("@ + join_texts(wrap_texts(texts(aliases), "alias=\""@, "\""@), ", "@)
            + ")]\n"@
    }
}

/// The serde attribute lines of a field or a variant: `skip` and the aliases.
pub open spec fn rust_skip_alias_lines(space: Seq<char>, a: Attributes) -> Seq<char> {
    (if a.skipped {
        space + "#[serde(skip)]\n"@
    } else {
        Seq::empty()
    }) + rust_alias_line(space, a.aliases@)
}

/// The visibility keyword of a field, when the formatter asks for it.
pub open spec fn rust_visibility(with_visibility: bool, v: Visibility) -> Seq<char> {
    if !with_visibility {
        Seq::empty()
    } else {
        match v {
            Visibility::Local => "pub(crate) "@,
            Visibility::Public => "pub "@,
        }
    }
}

/// One field of a Rust struct: its documentation, its serde attributes and its declaration.
pub open spec fn rust_field_text(f: FieldValue, fmt: FieldFormatter) -> Seq<char> {
    let space = indent_text(fmt.indents as nat);
    rust_comments_text(f.comments, fmt) + rust_skip_alias_lines(space, f.attributes) + space
        + rust_visibility(fmt.include_visibility, f.visibility) + f.name@ + ": "@ + rust_type(
        f.field_type,
    ) + ",\n"@
}

/// The fields of a Rust struct, in order.
pub open spec fn rust_fields_text(fs: Seq<FieldValue>, fmt: FieldFormatter) -> Seq<char>
    decreases fs.len(),
{
    if fs.len() == 0 {
        Seq::empty()
    } else {
        rust_fields_text(fs.drop_last(), fmt) + rust_field_text(fs.last(), fmt)
    }
}

/// Write the documentation of `comments` as Rust comments.
pub fn write_comments(s: &mut String, comments: &Comments, fmt: FieldFormatter)
    ensures
        final(s)@ == old(s)@ + rust_comments_text(*comments, fmt),
{
    let spaces = fmt.create_indents();
    let n = comments.doc.len();
    let mut i: usize = 0;
    while i < n
        invariant
            n == comments.doc@.len(),
            i <= n,
            spaces@ == indent_text(fmt.indents as nat),
            s@ == old(s)@ + rust_doc_lines(spaces@, comments.doc@.subrange(0, i as int)),
        decreases n - i,
    {
        proof {
            assert(comments.doc@.subrange(0, i + 1).drop_last() =~= comments.doc@.subrange(0, i as int));
        }
        let ghost before = s@;
        s.append(spaces.as_str());
        s.append("/// ");
        s.append(comments.doc[i].as_str());
        s.append("\n");
        proof {
            assert(s@ =~= before + spaces@ + "/// "@ + comments.doc@[i as int]@ + "\n"@);
        }
        i = i + 1;
    }
    proof {
        assert(comments.doc@.subrange(0, n as int) =~= comments.doc@);
    }
}

/// Write the serde `skip` and alias attributes of an item.
pub fn write_skip_alias(s: &mut String, space: &str, a: &Attributes)
    ensures
        final(s)@ == old(s)@ + rust_skip_alias_lines(space@, *a),
{
    let ghost start = s@;
    if a.skipped {
        s.append(space);
        s.append("#[serde(skip)]\n");
    }
    let ghost mid = s@;
    assert(mid =~= start + (if a.skipped {
        space@ + "#[serde(skip)]\n"@
    } else {
        Seq::empty()
    }));
    if a.aliases.len() > 0 {
        let lits = join_wrapped(&a.aliases, "alias=\"", "\"", ", ");
        s.append(space);
        s.append("#[serde(");
        s.append(lits.as_str());
        s.append(")]\n");
    }
    assert(s@ =~= mid + rust_alias_line(space@, a.aliases@));
}

/// Write one field of a Rust struct.
pub fn write_field(s: &mut String, f: &FieldValue, fmt: FieldFormatter)
    ensures
        final(s)@ == old(s)@ + rust_field_text(*f, fmt),
{
    let ghost start = s@;
    let space = fmt.create_indents();
    write_comments(s, &f.comments, fmt);
    write_skip_alias(s, space.as_str(), &f.attributes);
    let ghost mid = s@;
    s.append(space.as_str());
    if fmt.include_visibility {
        match f.visibility {
            Visibility::Local => s.append("pub(crate) "),
            Visibility::Public => s.append("pub "),
        }
    }
    s.append(f.name.as_str());
    s.append(": ");
    let ty = f.field_type.to_rust_type();
    s.append(ty.as_str());
    s.append(",\n");
    assert(s@ =~= mid + space@ + rust_visibility(fmt.include_visibility, f.visibility) + f.name@
        + ": "@ + rust_type(f.field_type) + ",\n"@);
    assert(s@ =~= start + rust_field_text(*f, fmt));
}

/// Write the fields of a Rust struct, in order.
pub fn write_fields(s: &mut String, fields: &Vec<FieldValue>, fmt: FieldFormatter)
    ensures
        final(s)@ == old(s)@ + rust_fields_text(fields@, fmt),
{
    let n = fields.len();
    let mut i: usize = 0;
    while i < n
        invariant
            n == fields@.len(),
            i <= n,
            s@ == old(s)@ + rust_fields_text(fields@.subrange(0, i as int), fmt),
        decreases n - i,
    {
        proof {
            assert(fields@.subrange(0, i + 1).drop_last() =~= fields@.subrange(0, i as int));
        }
        let ghost before = s@;
        write_field(s, &fields[i], fmt);
        proof {
            assert(s@ =~= before + rust_field_text(fields@[i as int], fmt));
        }
        i = i + 1;
    }
    proof {
        assert(fields@.subrange(0, n as int) =~= fields@);
    }
}

} // verus!
