use vstd::prelude::*;
use vstd::string::*;

use crate::types::{
    bracket_decl, lemma_concat_assoc, python_default, python_type, python_type_list, Types,
};

verus! {

/// Conversion of a schema type into the text of a Python type annotation.
pub trait ToPythonType {
    /// The Python text of the value; references are quoted when `quoted` holds.
    spec fn python_text(&self, quoted: bool) -> Seq<char>;

    fn to_python_type_quoted(&self, requires_quotes: bool) -> (r: String)
        ensures
            r@ == self.python_text(requires_quotes),
    ;

    fn to_python_type(&self) -> (r: String)
        ensures
            r@ == self.python_text(true),
    {
        self.to_python_type_quoted(true)
    }
}

/// Conversion of a schema type into a Python expression giving its default value.
pub trait ToDefaultPythonValue {
    spec fn python_default_text(&self) -> Seq<char>;

    fn to_default_python_value(&self) -> (r: String)
        ensures
            r@ == self.python_default_text(),
    ;
}

impl ToPythonType for Types {
    open spec fn python_text(&self, quoted: bool) -> Seq<char> {
        python_type(*self, quoted)
    }

    fn to_python_type_quoted(&self, requires_quotes: bool) -> (r: String)
        decreases self, 0nat,
    {
        match self {
            Types::Optional { inner } => {
                let mut r = String::from_str("Optional[");
                let i = inner.to_python_type_quoted(requires_quotes);
                r.append(i.as_str());
                r.append("]");
                r
            },
            Types::List { inner } => {
                let mut r = String::from_str("List[");
                let i = inner.to_python_type_quoted(requires_quotes);
                r.append(i.as_str());
                r.append("]");
                r
            },
            Types::SetOf { inner } => {
                let mut r = String::from_str("Set[");
                let i = inner.to_python_type_quoted(requires_quotes);
                r.append(i.as_str());
                r.append("]");
                r
            },
            Types::MapOf { key, value } => {
                let mut r = String::from_str("Dict[");
                let k = key.to_python_type_quoted(requires_quotes);
                let v = value.to_python_type_quoted(requires_quotes);
                r.append(k.as_str());
                r.append(", ");
                r.append(v.as_str());
                r.append("]");
                r
            },
            Types::Reference { inner, generics } => {
                let joined = python_join(generics, false);
                let body = reference_with_brackets(inner, &joined);
                if requires_quotes {
                    let mut r = String::from_str("'");
                    r.append(body.as_str());
                    r.append("'");
                    r
                } else {
                    body
                }
            },
            Types::Str => String::from_str("str"),
            Types::Bool => String::from_str("bool"),
            Types::F64 => String::from_str("float"),
            Types::F32 => String::from_str("float"),
            _ => String::from_str("int"),
        }
    }
}

/// `inner[joined]`, or `inner` alone when nothing was joined.
fn reference_with_brackets(inner: &String, joined: &String) -> (r: String)
    ensures
        r@ == inner@ + bracket_decl(joined@),
{
    let mut r = inner.clone();
    if joined.as_str().unicode_len() != 0 {
        r.append("[");
        r.append(joined.as_str());
        r.append("]");
        proof {
            lemma_concat_assoc(inner@, "["@ + joined@, "]"@);
            lemma_concat_assoc(inner@, "["@, joined@);
        }
    } else {
        assert(inner@ + Seq::<char>::empty() =~= inner@);
    }
    r
}

/// Python texts of the types in `ts`, joined by `, `.
fn python_join(ts: &Vec<Types>, quoted: bool) -> (r: String)
    ensures
        r@ == python_type_list(ts@, quoted),
    decreases ts, 1nat,
{
    let mut r = String::new();
    let n = ts.len();
    let mut i: usize = 0;
    while i < n
        invariant
            n == ts@.len(),
            i <= n,
            r@ == python_type_list(ts@.take(i as int), quoted),
        decreases n - i,
    {
        assert(decreases_to!(ts => ts@));
        let t = ts[i].to_python_type_quoted(quoted);
        if i == 0 {
            r = t;
        } else {
            r.append(", ");
            r.append(t.as_str());
        }
        i = i + 1;
        assert(ts@.take(i as int).drop_last() =~= ts@.take(i - 1));
    }
    assert(ts@.take(n as int) =~= ts@);
    r
}

impl ToDefaultPythonValue for Types {
    open spec fn python_default_text(&self) -> Seq<char> {
        python_default(*self)
    }

    fn to_default_python_value(&self) -> (r: String) {
        match self {
            Types::Str => String::from_str("''"),
            Types::Bool => String::from_str("False"),
            Types::F64 => String::from_str("0.0"),
            Types::F32 => String::from_str("0.0"),
            Types::Optional { .. } => String::from_str("None"),
            Types::List { .. } => String::from_str("[]"),
            Types::SetOf { .. } => String::from_str("[]"),
            Types::MapOf { .. } => String::from_str("{{}}"),
            Types::Reference { inner, generics } => {
                let joined = python_join(generics, true);
                let body = reference_with_brackets(inner, &joined);
                let mut r = String::from_str("guess_default(");
                r.append(body.as_str());
                r.append(")");
                proof {
                    lemma_concat_assoc("guess_default("@, inner@, bracket_decl(joined@));
                }
                r
            },
            _ => String::from_str("0"),
        }
    }
}


/// A set is annotated as a Python `Set` of its element type, and a list as a `List`: the
/// two annotations of the same element type differ, and each wraps the annotation of the
/// element in brackets after its own name.
pub proof fn law_python_collections(t: Types, quoted: bool)
    ensures
        ({
            let set_text = python_type(Types::SetOf { inner: Box::new(t) }, quoted);
            let list_text = python_type(Types::List { inner: Box::new(t) }, quoted);
            let inner = python_type(t, quoted);
            &&& set_text != list_text
            &&& set_text.len() == inner.len() + 5
            &&& set_text.take(4) == seq!['S', 'e', 't', '[']
            &&& set_text.subrange(4, set_text.len() - 1) == inner
            &&& set_text.last() == ']'
            &&& list_text.len() == inner.len() + 6
            &&& list_text.take(5) == seq!['L', 'i', 's', 't', '[']
            &&& list_text.subrange(5, list_text.len() - 1) == inner
            &&& list_text.last() == ']'
        }),
{
    reveal_strlit("Set[");
    reveal_strlit("List[");
    reveal_strlit("]");
    let set_text = python_type(Types::SetOf { inner: Box::new(t) }, quoted);
    let list_text = python_type(Types::List { inner: Box::new(t) }, quoted);
    let inner = python_type(t, quoted);
    assert(set_text == "Set["@ + inner + "]"@);
    assert(list_text == "List["@ + inner + "]"@);
    assert(set_text.take(4) =~= seq!['S', 'e', 't', '[']);
    assert(set_text.subrange(4, set_text.len() - 1) =~= inner);
    assert(list_text.take(5) =~= seq!['L', 'i', 's', 't', '[']);
    assert(list_text.subrange(5, list_text.len() - 1) =~= inner);
    assert(set_text[0] != list_text[0]);
}
} // verus!
