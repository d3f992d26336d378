use vstd::prelude::*;
use vstd::string::*;

use crate::types::{angle_decl, is_primitive, lemma_concat_assoc, rust_type, rust_type_list, schema_text, Types};

verus! {

/// Both types are the same primitive type.
pub open spec fn same_primitive(a: Types, b: Types) -> bool {
    match (a, b) {
        (Types::Str, Types::Str) | (Types::Usize, Types::Usize) | (Types::Bool, Types::Bool) | (
            Types::F64,
            Types::F64,
        ) | (Types::F32, Types::F32) | (Types::U64, Types::U64) | (Types::U32, Types::U32) | (
            Types::U16,
            Types::U16,
        ) | (Types::U8, Types::U8) | (Types::Isize, Types::Isize) | (Types::I64, Types::I64) | (
            Types::I32,
            Types::I32,
        ) | (Types::I16, Types::I16) | (Types::I8, Types::I8) => true,
        _ => false,
    }
}

/// A value of primitive type `a` converts to primitive type `b` without loss,
/// following the lossless conversions of Rust's standard library (plus `f64` to `f32`).
pub open spec fn primitive_convertible(a: Types, b: Types) -> bool {
    match (a, b) {
        (Types::Str, Types::Str) | (Types::Bool, Types::Bool) | (Types::F64, Types::F64) | (
            Types::F32,
            Types::F64,
        ) | (Types::F32, Types::F32) | (Types::F64, Types::F32) | (Types::U64, Types::U64) | (
            Types::U32,
            Types::U64,
        ) | (Types::U16, Types::U64) | (Types::U8, Types::U64) | (Types::I64, Types::U64) | (
            Types::I32,
            Types::U64,
        ) | (Types::I16, Types::U64) | (Types::I8, Types::U64) | (Types::U32, Types::U32) | (
            Types::U16,
            Types::U32,
        ) | (Types::U8, Types::U32) | (Types::I32, Types::U32) | (Types::I16, Types::U32) | (
            Types::I8,
            Types::U32,
        ) | (Types::U16, Types::U16) | (Types::U8, Types::U16) | (Types::I16, Types::U16) | (
            Types::I8,
            Types::U16,
        ) | (Types::U8, Types::U8) | (Types::I8, Types::U8) | (Types::Usize, Types::Usize) | (
            Types::U64,
            Types::Usize,
        ) | (Types::U32, Types::Usize) | (Types::U16, Types::Usize) | (Types::U8, Types::Usize) | (
            Types::I64,
            Types::Usize,
        ) | (Types::I32, Types::Usize) | (Types::I16, Types::Usize) | (Types::I8, Types::Usize) | (
            Types::Isize,
            Types::Isize,
        ) | (Types::U64, Types::Isize) | (Types::U32, Types::Isize) | (Types::U16, Types::Isize) | (
            Types::U8,
            Types::Isize,
        ) | (Types::I64, Types::Isize) | (Types::I32, Types::Isize) | (Types::I16, Types::Isize) | (
            Types::I8,
            Types::Isize,
        ) | (Types::I64, Types::I64) | (Types::I32, Types::I64) | (Types::I16, Types::I64) | (
            Types::I8,
            Types::I64,
        ) | (Types::U64, Types::I64) | (Types::U32, Types::I64) | (Types::U16, Types::I64) | (
            Types::U8,
            Types::I64,
        ) | (Types::I32, Types::I32) | (Types::I16, Types::I32) | (Types::I8, Types::I32) | (
            Types::U32,
            Types::I32,
        ) | (Types::U16, Types::I32) | (Types::U8, Types::I32) | (Types::I16, Types::I16) | (
            Types::I8,
            Types::I16,
        ) | (Types::U16, Types::I16) | (Types::U8, Types::I16) | (Types::I8, Types::I8) | (
            Types::U8,
            Types::I8,
        ) => true,
        _ => false,
    }
}

/// The element type of a list or a set.
pub open spec fn collection_inner(t: Types) -> Types
    recommends
        t is List || t is SetOf,
{
    match t {
        Types::List { inner } => *inner,
        Types::SetOf { inner } => *inner,
        _ => t,
    }
}

/// Generated code can convert a value of type `a` into one of type `b` by itself.
pub open spec fn gen_compatible(a: Types, b: Types) -> bool
    decreases a, b,
{
    if primitive_convertible(a, b) {
        true
    } else if a is Reference && b is Reference && a->Reference_inner@ == b->Reference_inner@ {
        true
    } else if a is Optional && b is Optional && gen_compatible(
        *a->Optional_inner,
        *b->Optional_inner,
    ) {
        true
    } else if b is Optional && gen_compatible(a, *b->Optional_inner) {
        true
    } else if (a is List || a is SetOf) && (b is List || b is SetOf) {
        gen_compatible(collection_inner(a), collection_inner(b))
    } else if a is MapOf && b is MapOf {
        gen_compatible(*a->MapOf_key, *b->MapOf_key) && gen_compatible(
            *a->MapOf_value,
            *b->MapOf_value,
        )
    } else {
        false
    }
}

pub open spec fn option_collect_suffix() -> Seq<char> {
    ").map_or(Ok(None), |v: Result<_, UpgradeError>| v.map(Some))"@
}

pub open spec fn list_collect_suffix() -> Seq<char> {
    ")).collect::<Result<_, UpgradeError>>()"@
}

pub open spec fn map_collect_suffix() -> Seq<char> {
    "))).collect::<Result<Vec<(_, _)>, UpgradeError>>()?.into_iter().collect()"@
}

/// Rust expression converting `var` of type `a` into type `b`; at the root the
/// expression has the new type, elsewhere it is a `Result` of it.
pub open spec fn conversion(a: Types, var: Seq<char>, root: bool, b: Types) -> Seq<char>
    decreases a, b,
{
    if same_primitive(a, b) {
        if root {
            var
        } else {
            "Ok("@ + var + ")"@
        }
    } else if a is Reference && b is Reference {
        if root {
            var + ".try_into()?"@
        } else {
            var + ".try_into()"@
        }
    } else if a is Optional && b is Optional {
        let x = *a->Optional_inner;
        let y = *b->Optional_inner;
        if root {
            var + ".map(|v| "@ + conversion(x, "v"@, false, y) + option_collect_suffix() + "?"@
        } else {
            var + ".map(|v| "@ + conversion(x, "v"@, false, x) + option_collect_suffix()
        }
    } else if b is Optional {
        let y = *b->Optional_inner;
        if root {
            "Some("@ + conversion(a, var, true, y) + ")"@
        } else {
            "Ok(Some("@ + conversion(a, var, true, y) + "))"@
        }
    } else if (a is List || a is SetOf) && (b is List || b is SetOf) {
        let body = var + ".into_iter().map(|v| Ok("@ + conversion(
            collection_inner(a),
            "v"@,
            true,
            collection_inner(b),
        ) + list_collect_suffix();
        if root {
            body + "?"@
        } else {
            body
        }
    } else if a is MapOf && b is MapOf {
        let body = var + ".into_iter().map(|(k, v)| Ok(("@ + conversion(
            *a->MapOf_key,
            "k"@,
            true,
            *b->MapOf_key,
        ) + ", "@ + conversion(*a->MapOf_value, "v"@, true, *b->MapOf_value) + map_collect_suffix();
        if root {
            body
        } else {
            "Ok("@ + body + ")"@
        }
    } else {
        "/* Requires manual implementation from "@ + schema_text(a) + " to "@ + schema_text(b)
            + " */"@
    }
}

/// Rust code generation for schema types.
pub trait ToRustType {
    spec fn rust_text(&self) -> Seq<char>;

    spec fn conversion_text(&self, var: Seq<char>, root: bool, new_type: Types) -> Seq<char>;

    spec fn compatible_with(&self, new_type: Types) -> bool;

    fn to_rust_type(&self) -> (r: String)
        ensures
            r@ == self.rust_text(),
    ;

    fn gen_convertion(&self, self_var: String, root: bool, new_type: &Types) -> (r: String)
        ensures
            r@ == self.conversion_text(self_var@, root, *new_type),
    ;

    fn is_gen_compatible(&self, other: &Types) -> (r: bool)
        ensures
            r == self.compatible_with(*other),
    ;
}

impl ToRustType for Types {
    open spec fn rust_text(&self) -> Seq<char> {
        rust_type(*self)
    }

    open spec fn conversion_text(&self, var: Seq<char>, root: bool, new_type: Types) -> Seq<
        char,
    > {
        conversion(*self, var, root, new_type)
    }

    open spec fn compatible_with(&self, new_type: Types) -> bool {
        gen_compatible(*self, new_type)
    }

    fn to_rust_type(&self) -> (r: String) {
        rust_text_of(self)
    }

    fn gen_convertion(&self, self_var: String, root: bool, new_type: &Types) -> (r: String) {
        conversion_of(self, self_var, root, new_type)
    }

    fn is_gen_compatible(&self, other: &Types) -> (r: bool) {
        compatible(self, other)
    }
}

fn rust_text_of(t: &Types) -> (r: String)
    ensures
        r@ == rust_type(*t),
    decreases t, 0nat,
{
    match t {
        Types::Reference { inner, generics } => {
            let joined = rust_join(generics);
            let mut r = inner.clone();
            if joined.as_str().unicode_len() != 0 {
                r.append("<");
                r.append(joined.as_str());
                r.append(">");
                proof {
                    lemma_concat_assoc(inner@, "<"@ + joined@, ">"@);
                    lemma_concat_assoc(inner@, "<"@, joined@);
                }
            } else {
                assert(inner@ + Seq::<char>::empty() =~= inner@);
            }
            r
        },
        Types::Optional { inner } => {
            let mut r = String::from_str("Option<");
            let i = rust_text_of(inner);
            r.append(i.as_str());
            r.append(">");
            r
        },
        Types::List { inner } => {
            let mut r = String::from_str("Vec<");
            let i = rust_text_of(inner);
            r.append(i.as_str());
            r.append(">");
            r
        },
        Types::SetOf { inner } => {
            let mut r = String::from_str("HashSet<");
            let i = rust_text_of(inner);
            r.append(i.as_str());
            r.append(">");
            r
        },
        Types::MapOf { key, value } => {
            let mut r = String::from_str("IndexMap<");
            let k = rust_text_of(key);
            let v = rust_text_of(value);
            r.append(k.as_str());
            r.append(", ");
            r.append(v.as_str());
            r.append(">");
            r
        },
        _ => t.to_schema_text(),
    }
}

fn rust_join(ts: &Vec<Types>) -> (r: String)
    ensures
        r@ == rust_type_list(ts@),
    decreases ts, 1nat,
{
    let mut r = String::new();
    let n = ts.len();
    let mut i: usize = 0;
    while i < n
        invariant
            n == ts@.len(),
            i <= n,
            r@ == rust_type_list(ts@.take(i as int)),
        decreases n - i,
    {
        assert(decreases_to!(ts => ts@));
        let t = rust_text_of(&ts[i]);
        if i == 0 {
            r = t;
        } else {
            r.append(", ");
            r.append(t.as_str());
        }
        i = i + 1;
        assert(ts@.take(i as int).drop_last() =~= ts@.take(i - 1));
    }
    assert(ts@.take(n as int) =~= ts@);
    r
}

fn is_primitive_pair_convertible(a: &Types, b: &Types) -> (r: bool)
    ensures
        r == primitive_convertible(*a, *b),
{
    match (a, b) {
        (Types::Str, Types::Str) | (Types::Bool, Types::Bool) | (Types::F64, Types::F64) | (
            Types::F32,
            Types::F64,
        ) | (Types::F32, Types::F32) | (Types::F64, Types::F32) | (Types::U64, Types::U64) | (
            Types::U32,
            Types::U64,
        ) | (Types::U16, Types::U64) | (Types::U8, Types::U64) | (Types::I64, Types::U64) | (
            Types::I32,
            Types::U64,
        ) | (Types::I16, Types::U64) | (Types::I8, Types::U64) | (Types::U32, Types::U32) | (
            Types::U16,
            Types::U32,
        ) | (Types::U8, Types::U32) | (Types::I32, Types::U32) | (Types::I16, Types::U32) | (
            Types::I8,
            Types::U32,
        ) | (Types::U16, Types::U16) | (Types::U8, Types::U16) | (Types::I16, Types::U16) | (
            Types::I8,
            Types::U16,
        ) | (Types::U8, Types::U8) | (Types::I8, Types::U8) | (Types::Usize, Types::Usize) | (
            Types::U64,
            Types::Usize,
        ) | (Types::U32, Types::Usize) | (Types::U16, Types::Usize) | (Types::U8, Types::Usize) | (
            Types::I64,
            Types::Usize,
        ) | (Types::I32, Types::Usize) | (Types::I16, Types::Usize) | (Types::I8, Types::Usize) | (
            Types::Isize,
            Types::Isize,
        ) | (Types::U64, Types::Isize) | (Types::U32, Types::Isize) | (Types::U16, Types::Isize) | (
            Types::U8,
            Types::Isize,
        ) | (Types::I64, Types::Isize) | (Types::I32, Types::Isize) | (Types::I16, Types::Isize) | (
            Types::I8,
            Types::Isize,
        ) | (Types::I64, Types::I64) | (Types::I32, Types::I64) | (Types::I16, Types::I64) | (
            Types::I8,
            Types::I64,
        ) | (Types::U64, Types::I64) | (Types::U32, Types::I64) | (Types::U16, Types::I64) | (
            Types::U8,
            Types::I64,
        ) | (Types::I32, Types::I32) | (Types::I16, Types::I32) | (Types::I8, Types::I32) | (
            Types::U32,
            Types::I32,
        ) | (Types::U16, Types::I32) | (Types::U8, Types::I32) | (Types::I16, Types::I16) | (
            Types::I8,
            Types::I16,
        ) | (Types::U16, Types::I16) | (Types::U8, Types::I16) | (Types::I8, Types::I8) | (
            Types::U8,
            Types::I8,
        ) => true,
        _ => false,
    }
}

fn is_same_primitive(a: &Types, b: &Types) -> (r: bool)
    ensures
        r == same_primitive(*a, *b),
{
    match (a, b) {
        (Types::Str, Types::Str) | (Types::Usize, Types::Usize) | (Types::Bool, Types::Bool) | (
            Types::F64,
            Types::F64,
        ) | (Types::F32, Types::F32) | (Types::U64, Types::U64) | (Types::U32, Types::U32) | (
            Types::U16,
            Types::U16,
        ) | (Types::U8, Types::U8) | (Types::Isize, Types::Isize) | (Types::I64, Types::I64) | (
            Types::I32,
            Types::I32,
        ) | (Types::I16, Types::I16) | (Types::I8, Types::I8) => true,
        _ => false,
    }
}

fn string_eq(a: &String, b: &String) -> (r: bool)
    ensures
        r == (a@ == b@),
{
    a.eq(b)
}

fn collection_element(t: &Types) -> (r: &Types)
    requires
        t is List || t is SetOf,
    ensures
        *r == collection_inner(*t),
{
    match t {
        Types::List { inner } => inner,
        Types::SetOf { inner } => inner,
        _ => t,
    }
}

fn compatible(a: &Types, b: &Types) -> (r: bool)
    ensures
        r == gen_compatible(*a, *b),
    decreases a, b,
{
    if is_primitive_pair_convertible(a, b) {
        return true;
    }
    if let (Types::Reference { inner: i1, .. }, Types::Reference { inner: i2, .. }) = (a, b) {
        if string_eq(i1, i2) {
            return true;
        }
    }
    if let (Types::Optional { inner: x }, Types::Optional { inner: y }) = (a, b) {
        if compatible(x, y) {
            return true;
        }
    }
    if let Types::Optional { inner: y } = b {
        if compatible(a, y) {
            return true;
        }
    }
    let a_collection = matches!(a, Types::List { .. } | Types::SetOf { .. });
    let b_collection = matches!(b, Types::List { .. } | Types::SetOf { .. });
    if a_collection && b_collection {
        return compatible(collection_element(a), collection_element(b));
    }
    if let (Types::MapOf { key: k1, value: v1 }, Types::MapOf { key: k2, value: v2 }) = (a, b) {
        return compatible(k1, k2) && compatible(v1, v2);
    }
    false
}

fn conversion_of(a: &Types, var: String, root: bool, b: &Types) -> (r: String)
    ensures
        r@ == conversion(*a, var@, root, *b),
    decreases a, b,
{
    if is_same_primitive(a, b) {
        if root {
            return var;
        } else {
            let mut r = String::from_str("Ok(");
            r.append(var.as_str());
            r.append(")");
            return r;
        }
    }
    if let (Types::Reference { .. }, Types::Reference { .. }) = (a, b) {
        let mut r = var;
        if root {
            r.append(".try_into()?");
        } else {
            r.append(".try_into()");
        }
        return r;
    }
    if let (Types::Optional { inner: x }, Types::Optional { inner: y }) = (a, b) {
        let mut r = var;
        r.append(".map(|v| ");
        if root {
            let c = conversion_of(x, String::from_str("v"), false, y);
            r.append(c.as_str());
            r.append(").map_or(Ok(None), |v: Result<_, UpgradeError>| v.map(Some))");
            r.append("?");
        } else {
            let c = conversion_of(x, String::from_str("v"), false, x);
            r.append(c.as_str());
            r.append(").map_or(Ok(None), |v: Result<_, UpgradeError>| v.map(Some))");
        }
        return r;
    }
    if let Types::Optional { inner: y } = b {
        let c = conversion_of(a, var, true, y);
        if root {
            let mut r = String::from_str("Some(");
            r.append(c.as_str());
            r.append(")");
            return r;
        } else {
            let mut r = String::from_str("Ok(Some(");
            r.append(c.as_str());
            r.append("))");
            return r;
        }
    }
    let a_collection = matches!(a, Types::List { .. } | Types::SetOf { .. });
    let b_collection = matches!(b, Types::List { .. } | Types::SetOf { .. });
    if a_collection && b_collection {
        let c = conversion_of(
            collection_element(a),
            String::from_str("v"),
            true,
            collection_element(b),
        );
        let mut r = var;
        r.append(".into_iter().map(|v| Ok(");
        r.append(c.as_str());
        r.append(")).collect::<Result<_, UpgradeError>>()");
        if root {
            r.append("?");
        }
        return r;
    }
    if let (Types::MapOf { key: k1, value: v1 }, Types::MapOf { key: k2, value: v2 }) = (a, b) {
        let ck = conversion_of(k1, String::from_str("k"), true, k2);
        let cv = conversion_of(v1, String::from_str("v"), true, v2);
        let mut body = var;
        body.append(".into_iter().map(|(k, v)| Ok((");
        body.append(ck.as_str());
        body.append(", ");
        body.append(cv.as_str());
        body.append(
            "))).collect::<Result<Vec<(_, _)>, UpgradeError>>()?.into_iter().collect()",
        );
        if root {
            return body;
        } else {
            let mut r = String::from_str("Ok(");
            r.append(body.as_str());
            r.append(")");
            return r;
        }
    }
    let mut r = String::from_str("/* Requires manual implementation from ");
    let an = a.to_schema_text();
    let bn = b.to_schema_text();
    r.append(an.as_str());
    r.append(" to ");
    r.append(bn.as_str());
    r.append(" */");
    r
}


/// The values of a fixed-width integer type, as the least and the greatest; `None` for the
/// other types.
pub open spec fn int_range(t: Types) -> Option<(int, int)> {
    match t {
        Types::U8 => Some((0, 0xff)),
        Types::U16 => Some((0, 0xffff)),
        Types::U32 => Some((0, 0xffff_ffff)),
        Types::U64 => Some((0, 0xffff_ffff_ffff_ffff)),
        Types::I8 => Some((-0x80, 0x7f)),
        Types::I16 => Some((-0x8000, 0x7fff)),
        Types::I32 => Some((-0x8000_0000, 0x7fff_ffff)),
        Types::I64 => Some((-0x8000_0000_0000_0000, 0x7fff_ffff_ffff_ffff)),
        _ => None,
    }
}

/// Every widening between integer types is converted by the generated code: when every
/// value of `a` is a value of `b`, a field changed from `a` to `b` migrates by itself. So
/// are `f32` to `f64`, and each primitive type to itself.
pub proof fn law_widening_is_gen_compatible(a: Types, b: Types)
    ensures
        (int_range(a) matches Some((lo_a, hi_a)) && int_range(b) matches Some((lo_b, hi_b)) && lo_b <= lo_a
            && hi_a <= hi_b) ==> gen_compatible(a, b),
        gen_compatible(Types::F32, Types::F64),
        is_primitive(a) ==> gen_compatible(a, a),
{
}
} // verus!
