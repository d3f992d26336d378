use vstd::prelude::*;
use vstd::string::*;

verus! {

/// The type of a field in a schema.
///
/// Primitive variants carry no data; `Reference` names another schema
/// statement (or a generic parameter) and may carry generic arguments.
#[allow(inconsistent_fields)]
pub enum Types {
    Str,
    Usize,
    Bool,
    F64,
    F32,
    U64,
    U32,
    U16,
    U8,
    Isize,
    I64,
    I32,
    I16,
    I8,
    Reference { inner: String, generics: Vec<Types> },
    Optional { inner: Box<Types> },
    List { inner: Box<Types> },
    SetOf { inner: Box<Types> },
    MapOf { key: Box<Types>, value: Box<Types> },
}

/// `a + (b + c)` and `(a + b) + c` are the same text.
pub proof fn lemma_concat_assoc(a: Seq<char>, b: Seq<char>, c: Seq<char>)
    ensures
        a + (b + c) == (a + b) + c,
{
    assert(a + (b + c) =~= (a + b) + c);
}

/// Name of a primitive type as written in Rust, which is also its name in a schema.
pub open spec fn primitive_name(t: Types) -> Seq<char> {
    match t {
        Types::Str => "String"@,
        Types::Usize => "usize"@,
        Types::Bool => "bool"@,
        Types::F64 => "f64"@,
        Types::F32 => "f32"@,
        Types::U64 => "u64"@,
        Types::U32 => "u32"@,
        Types::U16 => "u16"@,
        Types::U8 => "u8"@,
        Types::Isize => "isize"@,
        Types::I64 => "i64"@,
        Types::I32 => "i32"@,
        Types::I16 => "i16"@,
        Types::I8 => "i8"@,
        _ => Seq::empty(),
    }
}

pub open spec fn is_primitive(t: Types) -> bool {
    !(t is Reference || t is Optional || t is List || t is SetOf || t is MapOf)
}

/// `<a, b, c>` when the list is non empty, nothing otherwise.
pub open spec fn angle_decl(joined: Seq<char>) -> Seq<char> {
    if joined.len() == 0 {
        Seq::empty()
    } else {
        "<"@ + joined + ">"@
    }
}

/// `[a, b, c]` when the list is non empty, nothing otherwise.
pub open spec fn bracket_decl(joined: Seq<char>) -> Seq<char> {
    if joined.len() == 0 {
        Seq::empty()
    } else {
        "["@ + joined + "]"@
    }
}

/// Text of a type in schema syntax.
pub open spec fn schema_text(t: Types) -> Seq<char>
    decreases t, 0nat,
{
    match t {
        Types::Reference { inner, generics } => inner@ + angle_decl(schema_text_list(generics@)),
        Types::Optional { inner } => "Option<"@ + schema_text(*inner) + ">"@,
        Types::List { inner } => "List<"@ + schema_text(*inner) + ">"@,
        Types::SetOf { inner } => "Set<"@ + schema_text(*inner) + ">"@,
        Types::MapOf { key, value } => "Map<"@ + schema_text(*key) + ", "@ + schema_text(*value) + ">"@,
        _ => primitive_name(t),
    }
}

/// Schema names of a list of types, joined by `, `.
pub open spec fn schema_text_list(ts: Seq<Types>) -> Seq<char>
    decreases ts, 1nat,
{
    if ts.len() == 0 {
        Seq::empty()
    } else if ts.len() == 1 {
        schema_text(ts[0])
    } else {
        schema_text_list(ts.drop_last()) + ", "@ + schema_text(ts.last())
    }
}

/// Text of a type in generated Rust code.
pub open spec fn rust_type(t: Types) -> Seq<char>
    decreases t, 0nat,
{
    match t {
        Types::Reference { inner, generics } => inner@ + angle_decl(rust_type_list(generics@)),
        Types::Optional { inner } => "Option<"@ + rust_type(*inner) + ">"@,
        Types::List { inner } => "Vec<"@ + rust_type(*inner) + ">"@,
        Types::SetOf { inner } => "HashSet<"@ + rust_type(*inner) + ">"@,
        Types::MapOf { key, value } => "IndexMap<"@ + rust_type(*key) + ", "@ + rust_type(*value)
            + ">"@,
        _ => primitive_name(t),
    }
}

/// Rust texts of a list of types, joined by `, `.
pub open spec fn rust_type_list(ts: Seq<Types>) -> Seq<char>
    decreases ts, 1nat,
{
    if ts.len() == 0 {
        Seq::empty()
    } else if ts.len() == 1 {
        rust_type(ts[0])
    } else {
        rust_type_list(ts.drop_last()) + ", "@ + rust_type(ts.last())
    }
}

/// Python name of a primitive type.
pub open spec fn python_primitive(t: Types) -> Seq<char> {
    match t {
        Types::Str => "str"@,
        Types::Bool => "bool"@,
        Types::F64 => "float"@,
        Types::F32 => "float"@,
        _ => "int"@,
    }
}

/// Text of a type in generated Python code; references are quoted when `quoted` holds.
pub open spec fn python_type(t: Types, quoted: bool) -> Seq<char>
    decreases t, 0nat,
{
    match t {
        Types::Optional { inner } => "Optional["@ + python_type(*inner, quoted) + "]"@,
        Types::List { inner } => "List["@ + python_type(*inner, quoted) + "]"@,
        Types::SetOf { inner } => "Set["@ + python_type(*inner, quoted) + "]"@,
        Types::MapOf { key, value } => "Dict["@ + python_type(*key, quoted) + ", "@ + python_type(
            *value,
            quoted,
        ) + "]"@,
        Types::Reference { inner, generics } => {
            let body = inner@ + bracket_decl(python_type_list(generics@, false));
            if quoted {
                "'"@ + body + "'"@
            } else {
                body
            }
        },
        _ => python_primitive(t),
    }
}

/// Python texts of a list of types, joined by `, `.
pub open spec fn python_type_list(ts: Seq<Types>, quoted: bool) -> Seq<char>
    decreases ts, 1nat,
{
    if ts.len() == 0 {
        Seq::empty()
    } else if ts.len() == 1 {
        python_type(ts[0], quoted)
    } else {
        python_type_list(ts.drop_last(), quoted) + ", "@ + python_type(ts.last(), quoted)
    }
}

/// Python expression giving the default value of a type.
pub open spec fn python_default(t: Types) -> Seq<char> {
    match t {
        Types::Str => "''"@,
        Types::Bool => "False"@,
        Types::F64 => "0.0"@,
        Types::F32 => "0.0"@,
        Types::Optional { .. } => "None"@,
        Types::List { .. } => "[]"@,
        Types::SetOf { .. } => "[]"@,
        Types::MapOf { .. } => "{{}}"@,
        Types::Reference { inner, generics } => "guess_default("@ + inner@ + bracket_decl(
            python_type_list(generics@, true),
        ) + ")"@,
        _ => "0"@,
    }
}

impl Types {
    /// The schema text of the type.
    pub fn to_schema_text(&self) -> (r: String)
        ensures
            r@ == schema_text(*self),
        decreases self, 0nat,
    {
        match self {
            Types::Reference { inner, generics } => {
                let joined = Types::schema_text_join(generics);
                let mut r = inner.clone();
                if joined.as_str().unicode_len() != 0 {
                    r.append("<");
                    r.append(joined.as_str());
                    r.append(">");
                    proof {
                        lemma_concat_assoc(inner@, "<"@ + joined@, ">"@);
                        lemma_concat_assoc(inner@, "<"@, joined@);
                    }
                } else {
                    assert(inner@ + Seq::<char>::empty() =~= inner@);
                }
                r
            },
            Types::Optional { inner } => {
                let mut r = String::from_str("Option<");
                let i = inner.to_schema_text();
                r.append(i.as_str());
                r.append(">");
                r
            },
            Types::List { inner } => {
                let mut r = String::from_str("List<");
                let i = inner.to_schema_text();
                r.append(i.as_str());
                r.append(">");
                r
            },
            Types::SetOf { inner } => {
                let mut r = String::from_str("Set<");
                let i = inner.to_schema_text();
                r.append(i.as_str());
                r.append(">");
                r
            },
            Types::MapOf { key, value } => {
                let mut r = String::from_str("Map<");
                let k = key.to_schema_text();
                let v = value.to_schema_text();
                r.append(k.as_str());
                r.append(", ");
                r.append(v.as_str());
                r.append(">");
                r
            },
            _ => self.primitive_text(),
        }
    }

    fn primitive_text(&self) -> (r: String)
        requires
            is_primitive(*self),
        ensures
            r@ == primitive_name(*self),
    {
        match self {
            Types::Str => String::from_str("String"),
            Types::Usize => String::from_str("usize"),
            Types::Bool => String::from_str("bool"),
            Types::F64 => String::from_str("f64"),
            Types::F32 => String::from_str("f32"),
            Types::U64 => String::from_str("u64"),
            Types::U32 => String::from_str("u32"),
            Types::U16 => String::from_str("u16"),
            Types::U8 => String::from_str("u8"),
            Types::Isize => String::from_str("isize"),
            Types::I64 => String::from_str("i64"),
            Types::I32 => String::from_str("i32"),
            Types::I16 => String::from_str("i16"),
            Types::I8 => String::from_str("i8"),
            _ => String::new(),
        }
    }

    fn schema_text_join(ts: &Vec<Types>) -> (r: String)
        ensures
            r@ == schema_text_list(ts@),
        decreases ts, 1nat,
    {
        let mut r = String::new();
        let n = ts.len();
        let mut i: usize = 0;
        while i < n
            invariant
                n == ts@.len(),
                i <= n,
                r@ == schema_text_list(ts@.take(i as int)),
            decreases n - i,
        {
            assert(decreases_to!(ts => ts@));
            let t = Types::to_schema_text(&ts[i]);
            if i == 0 {
                assert(ts@.take(1).drop_last() =~= Seq::<Types>::empty());
                r = t;
            } else {
                r.append(", ");
                r.append(t.as_str());
            }
            i = i + 1;
            assert(ts@.take(i as int).drop_last() =~= ts@.take(i - 1));
        }
        assert(ts@.take(n as int) =~= ts@);
        r
    }
}

} // verus!
