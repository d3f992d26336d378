use vstd::prelude::*;
use vstd::string::*;

use crate::rust_items::push_str;
use crate::schema::{Comments, FieldValue};
use crate::text::{
    concat_map, join_strings, join_texts, join_wrapped, lemma_concat_map_all, lemma_concat_map_step,
    texts, wrap_texts,
};
use crate::to_python_type::{ToDefaultPythonValue, ToPythonType};
use crate::types::{python_default, python_type};

verus! {

/// The documentation of a Python class or field: a docstring, when there is any.
pub open spec fn py_comments_text(c: Comments) -> Seq<char> {
    if c.doc@.len() > 0 {
        "    \"\"\"\n"@ + concat_map(c.doc@, |d: String| "    "@ + d@ + "\n"@) + "    \"\"\"\n"@
    } else {
        Seq::empty()
    }
}

/// Write the documentation of `comments` as a Python docstring.
pub fn write_comments(s: &mut String, comments: &Comments)
    ensures
        final(s)@ == old(s)@ + py_comments_text(*comments),
{
    let ghost f = |d: String| "    "@ + d@ + "\n"@;
    if comments.doc.len() > 0 {
        let ghost start = s@;
        s.append("    \"\"\"\n");
        let ghost mid = s@;
        let n = comments.doc.len();
        let mut i: usize = 0;
        while i < n
            invariant
                n == comments.doc@.len(),
                i <= n,
                f == (|d: String| "    "@ + d@ + "\n"@),
                s@ == mid + concat_map(comments.doc@.subrange(0, i as int), f),
            decreases n - i,
        {
            proof {
                lemma_concat_map_step(comments.doc@, i as int, f);
            }
            let ghost before = s@;
            s.append("    ");
            s.append(comments.doc[i].as_str());
            s.append("\n");
            assert(s@ =~= before + f(comments.doc@[i as int]));
            i = i + 1;
        }
        proof {
            lemma_concat_map_all(comments.doc@, f);
        }
        s.append("    \"\"\"\n");
        assert(s@ =~= start + py_comments_text(*comments));
    } else {
        assert(s@ =~= old(s)@ + py_comments_text(*comments));
    }
}

/// The arguments of `Field(..)` for a field of a Python class: excluded when skipped, a
/// default when skipped or defaulted, and the names it is read under.
pub open spec fn py_field_attributes(f: FieldValue) -> Seq<Seq<char>> {
    (if f.attributes.skipped {
        seq!["exclude=True"@]
    } else {
        Seq::empty()
    }) + (if f.attributes.skipped || f.attributes.default {
        seq!["default_factory=lambda:"@ + python_default(f.field_type)]
    } else {
        Seq::empty()
    }) + (if f.attributes.aliases@.len() > 0 {
        seq![
            "validation_alias=AliasChoices('"@ + f.name@ + "', '"@ + join_texts(
                wrap_texts(texts(f.attributes.aliases@), "'"@, "'"@),
                ", "@,
            ) + "')"@,
        ]
    } else {
        Seq::empty()
    })
}

/// One field of a Python class, followed by its documentation.
pub open spec fn py_field_text(f: FieldValue, quoted: bool) -> Seq<char> {
    let attrs = py_field_attributes(f);
    (if attrs.len() > 0 {
        "    "@ + f.name@ + ": "@ + python_type(f.field_type, quoted) + " = Field("@ + join_texts(
            attrs,
            ", "@,
        ) + ")\n"@
    } else {
        "    "@ + f.name@ + ": "@ + python_type(f.field_type, quoted) + "\n"@
    }) + py_comments_text(f.comments)
}

/// The fields of a Python class, in order.
pub open spec fn py_fields_text(fs: Seq<FieldValue>, quoted: bool) -> Seq<char> {
    concat_map(fs, |f: FieldValue| py_field_text(f, quoted))
}

fn field_attributes(f: &FieldValue) -> (r: Vec<String>)
    ensures
        texts(r@) == py_field_attributes(*f),
{
    let mut v: Vec<String> = Vec::new();
    if f.attributes.skipped {
        push_str(&mut v, "exclude=True");
    }
    if f.attributes.skipped || f.attributes.default {
        let default = f.field_type.to_default_python_value();
        let mut a = String::from_str("default_factory=lambda:");
        a.append(default.as_str());
        let ghost before = v@;
        v.push(a);
        assert(texts(v@) =~= texts(before).push(a@));
    }
    if f.attributes.aliases.len() > 0 {
        let lits = join_wrapped(&f.attributes.aliases, "'", "'", ", ");
        let mut a = String::from_str("validation_alias=AliasChoices('");
        a.append(f.name.as_str());
        a.append("', '");
        a.append(lits.as_str());
        a.append("')");
        let ghost before = v@;
        v.push(a);
        assert(texts(v@) =~= texts(before).push(a@));
    }
    assert(texts(v@) =~= py_field_attributes(*f));
    v
}

/// Write one field of a Python class.
pub fn write_field(s: &mut String, f: &FieldValue, quoted: bool)
    ensures
        final(s)@ == old(s)@ + py_field_text(*f, quoted),
{
    let ghost start = s@;
    let ty = f.field_type.to_python_type_quoted(quoted);
    let attrs = field_attributes(f);
    s.append("    ");
    s.append(f.name.as_str());
    s.append(": ");
    s.append(ty.as_str());
    if attrs.len() > 0 {
        let joined = join_strings(&attrs, ", ");
        s.append(" = Field(");
        s.append(joined.as_str());
        s.append(")\n");
    } else {
        s.append("\n");
    }
    let ghost mid = s@;
    write_comments(s, &f.comments);
    assert(s@ =~= start + py_field_text(*f, quoted));
}

/// Write the fields of a Python class, in order.
pub fn write_fields(s: &mut String, fields: &Vec<FieldValue>, quoted: bool)
    ensures
        final(s)@ == old(s)@ + py_fields_text(fields@, quoted),
{
    let ghost f = |x: FieldValue| py_field_text(x, quoted);
    let n = fields.len();
    let mut i: usize = 0;
    while i < n
        invariant
            n == fields@.len(),
            i <= n,
            f == (|x: FieldValue| py_field_text(x, quoted)),
            s@ == old(s)@ + concat_map(fields@.subrange(0, i as int), f),
        decreases n - i,
    {
        proof {
            lemma_concat_map_step(fields@, i as int, f);
        }
        let ghost before = s@;
        write_field(s, &fields[i], quoted);
        i = i + 1;
    }
    proof {
        lemma_concat_map_all(fields@, f);
    }
}

} // verus!
