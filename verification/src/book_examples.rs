use vstd::prelude::*;
use vstd::string::*;

use crate::book::{example_indent, gen_keyed_field_example, keyed_field_example, write_example_indent};
use crate::error::{GenError, GenResult};
use crate::naming::{all_ascii, all_ascii_digits};
use crate::project::str_equal;
use crate::schema::{EnumVarient, FieldValue, Schema, SchemaStm};
use crate::types::Types;

verus! {

/// A type as the examples read it: a primitive, a wrapper around other types, or a
/// reference to a statement or a generic parameter, with its generic arguments.
pub enum TypeTree {
    Leaf(Types),
    Optional(Box<TypeTree>),
    List(Box<TypeTree>),
    SetOf(Box<TypeTree>),
    MapOf(Box<TypeTree>, Box<TypeTree>),
    Reference(Seq<char>, Seq<TypeTree>),
}

/// The tree of a type.
pub open spec fn tree_of(t: Types) -> TypeTree
    decreases t, 0nat,
{
    match t {
        Types::Reference { inner, generics } => TypeTree::Reference(inner@, trees_of(generics@)),
        Types::Optional { inner } => TypeTree::Optional(Box::new(tree_of(*inner))),
        Types::List { inner } => TypeTree::List(Box::new(tree_of(*inner))),
        Types::SetOf { inner } => TypeTree::SetOf(Box::new(tree_of(*inner))),
        Types::MapOf { key, value } => TypeTree::MapOf(Box::new(tree_of(*key)), Box::new(tree_of(*value))),
        _ => TypeTree::Leaf(t),
    }
}

/// The trees of a list of types.
pub open spec fn trees_of(ts: Seq<Types>) -> Seq<TypeTree>
    decreases ts, 1nat,
{
    if ts.len() == 0 {
        Seq::empty()
    } else {
        trees_of(ts.drop_last()).push(tree_of(ts.last()))
    }
}

/// A scope of generic parameters: each letter with the type it stands for, if any.
pub type ScopeView = Seq<(Seq<char>, Option<TypeTree>)>;

pub open spec fn scope_view(s: Seq<(String, Option<Types>)>) -> ScopeView {
    s.map_values(
        |e: (String, Option<Types>)|
            (
                e.0@,
                match e.1 {
                    Some(t) => Some(tree_of(t)),
                    None => None,
                },
            ),
    )
}

/// The entry of `name` in a scope; a later entry replaces an earlier one.
pub open spec fn scope_lookup(scope: ScopeView, name: Seq<char>) -> Option<Option<TypeTree>>
    decreases scope.len(),
{
    if scope.len() == 0 {
        None
    } else if scope.last().0 == name {
        Some(scope.last().1)
    } else {
        scope_lookup(scope.drop_last(), name)
    }
}

/// The type with each reference to a letter of the scope replaced by what the letter
/// stands for (a letter standing for nothing stays).
pub open spec fn expand(t: TypeTree, scope: ScopeView) -> TypeTree
    decreases t, 0nat,
{
    match t {
        TypeTree::Reference(name, gs) => match scope_lookup(scope, name) {
            Some(Some(g)) => g,
            Some(None) => t,
            None => TypeTree::Reference(name, expand_all(gs, scope)),
        },
        TypeTree::Optional(i) => TypeTree::Optional(Box::new(expand(*i, scope))),
        TypeTree::List(i) => TypeTree::List(Box::new(expand(*i, scope))),
        TypeTree::SetOf(i) => TypeTree::SetOf(Box::new(expand(*i, scope))),
        TypeTree::MapOf(k, v) => TypeTree::MapOf(Box::new(expand(*k, scope)), Box::new(expand(*v, scope))),
        TypeTree::Leaf(_) => t,
    }
}

pub open spec fn expand_all(ts: Seq<TypeTree>, scope: ScopeView) -> Seq<TypeTree>
    decreases ts, 1nat,
{
    if ts.len() == 0 {
        Seq::empty()
    } else {
        expand_all(ts.drop_last(), scope).push(expand(ts.last(), scope))
    }
}

/// A copy of a type.
pub fn copy_types(t: &Types) -> (r: Types)
    ensures
        tree_of(r) == tree_of(*t),
    decreases t, 0nat,
{
    match t {
        Types::Str => Types::Str,
        Types::Usize => Types::Usize,
        Types::Bool => Types::Bool,
        Types::F64 => Types::F64,
        Types::F32 => Types::F32,
        Types::U64 => Types::U64,
        Types::U32 => Types::U32,
        Types::U16 => Types::U16,
        Types::U8 => Types::U8,
        Types::Isize => Types::Isize,
        Types::I64 => Types::I64,
        Types::I32 => Types::I32,
        Types::I16 => Types::I16,
        Types::I8 => Types::I8,
        Types::Reference { inner, generics } => Types::Reference { inner: inner.clone(), generics: copy_list(generics) },
        Types::Optional { inner } => Types::Optional { inner: Box::new(copy_types(inner)) },
        Types::List { inner } => Types::List { inner: Box::new(copy_types(inner)) },
        Types::SetOf { inner } => Types::SetOf { inner: Box::new(copy_types(inner)) },
        Types::MapOf { key, value } => Types::MapOf {
            key: Box::new(copy_types(key)),
            value: Box::new(copy_types(value)),
        },
    }
}

fn copy_list(v: &Vec<Types>) -> (r: Vec<Types>)
    ensures
        trees_of(r@) == trees_of(v@),
    decreases v, 1nat,
{
    let mut r: Vec<Types> = Vec::new();
    let n = v.len();
    let mut i: usize = 0;
    while i < n
        invariant
            n == v@.len(),
            i <= n,
            trees_of(r@) == trees_of(v@.take(i as int)),
        decreases n - i,
    {
        proof {
            assert(decreases_to!(v => v@[i as int]));
        }
        let c = copy_types(&v[i]);
        let ghost before = r@;
        r.push(c);
        assert(r@.drop_last() =~= before);
        assert(v@.take(i + 1).drop_last() =~= v@.take(i as int));
        i = i + 1;
    }
    assert(v@.take(n as int) =~= v@);
    r
}

/// The entry of `name` in a scope, the later one when there are several.
pub fn scope_get<'a>(scope: &'a Vec<(String, Option<Types>)>, name: &str) -> (r: Option<&'a Option<Types>>)
    ensures
        match r {
            Some(e) => scope_lookup(scope_view(scope@), name@) == Some(
                match *e {
                    Some(t) => Some(tree_of(t)),
                    None => None,
                },
            ),
            None => scope_lookup(scope_view(scope@), name@) is None,
        },
{
    let mut i = scope.len();
    assert(scope@.take(i as int) =~= scope@);
    while i > 0
        invariant
            i <= scope@.len(),
            scope_lookup(scope_view(scope@), name@) == scope_lookup(scope_view(scope@.take(i as int)), name@),
        decreases i,
    {
        let ghost sv = scope_view(scope@.take(i as int));
        assert(sv.drop_last() =~= scope_view(scope@.take(i - 1)));
        assert(sv.last() == scope_view(scope@)[i - 1]);
        if str_equal(scope[i - 1].0.as_str(), name) {
            return Some(&scope[i - 1].1);
        }
        i = i - 1;
    }
    None
}

/// Expand all references to the letters of the scope, so that the type no longer refers to it.
pub fn expand_type(ty: &Types, scope: &Vec<(String, Option<Types>)>) -> (r: GenResult<Types>)
    ensures
        r matches Ok(t) && tree_of(t) == expand(tree_of(*ty), scope_view(scope@)),
    decreases ty, 0nat,
{
    match ty {
        Types::Reference { inner, generics } => match scope_get(scope, inner.as_str()) {
            Some(Some(g)) => Ok(copy_types(g)),
            Some(None) => Ok(copy_types(ty)),
            None => {
                let gs = expand_list(generics, scope);
                Ok(Types::Reference { inner: inner.clone(), generics: gs })
            },
        },
        Types::Optional { inner } => {
            let i = expand_type(inner, scope);
            match i {
                Ok(x) => Ok(Types::Optional { inner: Box::new(x) }),
                Err(e) => Err(e),
            }
        },
        Types::List { inner } => {
            let i = expand_type(inner, scope);
            match i {
                Ok(x) => Ok(Types::List { inner: Box::new(x) }),
                Err(e) => Err(e),
            }
        },
        Types::SetOf { inner } => {
            let i = expand_type(inner, scope);
            match i {
                Ok(x) => Ok(Types::SetOf { inner: Box::new(x) }),
                Err(e) => Err(e),
            }
        },
        Types::MapOf { key, value } => {
            let k = expand_type(key, scope);
            let v = expand_type(value, scope);
            match (k, v) {
                (Ok(k), Ok(v)) => Ok(Types::MapOf { key: Box::new(k), value: Box::new(v) }),
                (Err(e), _) => Err(e),
                (_, Err(e)) => Err(e),
            }
        },
        _ => Ok(copy_types(ty)),
    }
}

fn expand_list(v: &Vec<Types>, scope: &Vec<(String, Option<Types>)>) -> (r: Vec<Types>)
    ensures
        trees_of(r@) == expand_all(trees_of(v@), scope_view(scope@)),
    decreases v, 1nat,
{
    let mut r: Vec<Types> = Vec::new();
    let n = v.len();
    let mut i: usize = 0;
    while i < n
        invariant
            n == v@.len(),
            i <= n,
            trees_of(r@) == expand_all(trees_of(v@.take(i as int)), scope_view(scope@)),
        decreases n - i,
    {
        proof {
            assert(decreases_to!(v => v@[i as int]));
        }
        let c = expand_type(&v[i], scope);
        match c {
            Ok(t) => {
                let ghost before = r@;
                r.push(t);
                assert(r@.drop_last() =~= before);
            },
            Err(_) => {},
        }
        assert(v@.take(i + 1).drop_last() =~= v@.take(i as int));
        assert(trees_of(v@.take(i + 1)).drop_last() =~= trees_of(v@.take(i as int)));
        i = i + 1;
    }
    assert(v@.take(n as int) =~= v@);
    r
}

proof fn lemma_trees_of_index(ts: Seq<Types>, i: int)
    requires
        0 <= i < ts.len(),
    ensures
        trees_of(ts).len() == ts.len(),
        trees_of(ts)[i] == tree_of(ts[i]),
    decreases ts.len(),
{
    lemma_trees_of_len(ts);
    if i < ts.len() - 1 {
        lemma_trees_of_index(ts.drop_last(), i);
    }
}

proof fn lemma_trees_of_len(ts: Seq<Types>)
    ensures
        trees_of(ts).len() == ts.len(),
    decreases ts.len(),
{
    if ts.len() > 0 {
        lemma_trees_of_len(ts.drop_last());
    }
}

/// An example: `None` when it takes more steps than were allowed, else the text, or the
/// name of a reference to no statement.
pub type Example = Option<Result<Seq<char>, Seq<char>>>;

/// `f` applied to the text of an example that succeeded.
pub open spec fn ex_map(e: Example, f: spec_fn(Seq<char>) -> Seq<char>) -> Example {
    match e {
        Some(Ok(x)) => Some(Ok(f(x))),
        _ => e,
    }
}

/// A value between quotes when `escaped` is set.
pub open spec fn quoted(escaped: bool, text: Seq<char>) -> Seq<char> {
    if escaped {
        "\""@ + text + "\""@
    } else {
        text
    }
}

/// The example value of a primitive type.
pub open spec fn leaf_example(t: Types, escaped: bool) -> Seq<char> {
    match t {
        Types::Str => "\"Lorem ipsum dolor sit amet\""@,
        Types::Usize => quoted(escaped, "1234"@),
        Types::U64 => quoted(escaped, "1234"@),
        Types::U32 => quoted(escaped, "1234"@),
        Types::U16 => quoted(escaped, "1234"@),
        Types::Bool => quoted(escaped, "false"@),
        Types::F64 => quoted(escaped, "1234.567"@),
        Types::F32 => quoted(escaped, "1234.567"@),
        Types::U8 => quoted(escaped, "123"@),
        Types::I8 => quoted(escaped, "123"@),
        _ => quoted(escaped, "-1234"@),
    }
}

/// A json list holding the example `e`, then an ellipsis.
pub open spec fn list_example(e: Seq<char>, indent: nat) -> Seq<char> {
    "[\n"@ + example_indent(indent + 1) + e + ",\n"@ + example_indent(indent + 1) + "...\n"@ + example_indent(indent)
        + "]"@
}

/// A json object with the example entry `k: v`, then an ellipsis.
pub open spec fn map_example(k: Seq<char>, v: Seq<char>, indent: nat) -> Seq<char> {
    "{\n"@ + example_indent(indent + 1) + k + ": "@ + v + ",\n"@ + example_indent(indent + 1) + "...\n"@
        + example_indent(indent) + "}"@
}

/// The name a statement declares.
pub open spec fn stm_name(st: SchemaStm) -> Seq<char> {
    match st {
        SchemaStm::Node(x) => x.name@,
        SchemaStm::Edge(x) => x.name@,
        SchemaStm::Struct(x) => x.name@,
        SchemaStm::Enum(x) => x.name@,
        SchemaStm::Import(x) => x.name@,
    }
}

/// The first statement declaring `name`.
pub open spec fn stm_named(c: Seq<SchemaStm>, name: Seq<char>) -> Option<SchemaStm>
    decreases c.len(),
{
    if c.len() == 0 {
        None
    } else if stm_name(c[0]) == name {
        Some(c[0])
    } else {
        stm_named(c.drop_first(), name)
    }
}

/// The generic parameters a statement declares.
pub open spec fn stm_generics(st: SchemaStm) -> Seq<String> {
    match st {
        SchemaStm::Struct(x) => x.generics@,
        SchemaStm::Enum(x) => x.generics@,
        _ => Seq::empty(),
    }
}

/// The entry of a letter in the scope of a referenced statement: the type given for it,
/// or nothing when that type is the letter itself.
pub open spec fn scope_entry(letter: Seq<char>, u: TypeTree) -> (Seq<char>, Option<TypeTree>) {
    (
        letter,
        match u {
            TypeTree::Reference(x, _) => if x == letter {
                None
            } else {
                Some(u)
            },
            _ => Some(u),
        },
    )
}

/// The scope of a referenced statement: its letters paired with the generic arguments of
/// the reference, expanded in the scope of the reference.
pub open spec fn local_scope(letters: Seq<String>, gs: Seq<TypeTree>, scope: ScopeView) -> ScopeView {
    let m = if letters.len() < gs.len() {
        letters.len()
    } else {
        gs.len()
    };
    Seq::new(m, |i: int| scope_entry(letters[i]@, expand(gs[i], scope)))
}

/// The json example of a type, within `fuel` steps.
pub open spec fn ex_type(fuel: nat, t: TypeTree, escaped: bool, indent: nat, c: Seq<SchemaStm>, scope: ScopeView) -> Example
    decreases fuel, 0nat,
{
    if fuel == 0 {
        None
    } else {
        let f = (fuel - 1) as nat;
        match t {
            TypeTree::Leaf(p) => Some(Ok(leaf_example(p, escaped))),
            TypeTree::Optional(i) => ex_type(f, *i, false, indent, c, scope),
            TypeTree::List(i) => ex_map(ex_type(f, *i, false, indent + 1, c, scope), |e: Seq<char>| list_example(e, indent)),
            TypeTree::SetOf(i) => ex_map(ex_type(f, *i, false, indent + 1, c, scope), |e: Seq<char>| list_example(e, indent)),
            TypeTree::MapOf(k, v) => match ex_type(f, *k, true, indent, c, scope) {
                Some(Ok(ke)) => ex_map(ex_type(f, *v, false, indent + 1, c, scope), |ve: Seq<char>| map_example(ke, ve, indent)),
                o => o,
            },
            TypeTree::Reference(name, gs) => match scope_lookup(scope, name) {
                Some(Some(rep)) => ex_type(f, rep, false, indent, c, scope),
                Some(None) => Some(Ok("/* "@ + name + " */"@)),
                None => match stm_named(c, name) {
                    None => Some(Err(name)),
                    Some(st) => ex_stm(f, st, indent, c, local_scope(stm_generics(st), gs, scope)),
                },
            },
        }
    }
}

/// The json example of an edge, from the example of its fields.
pub open spec fn edge_example(name: Seq<char>, fields: Seq<char>, indent: nat) -> Seq<char> {
    "{\n"@ + example_indent(indent + 1) + "\"weight\": "@ + keyed_field_example(name, fields, indent + 1) + ",\n"@
        + example_indent(indent + 1) + "\"source\": /* NodeId */,\n"@ + example_indent(indent + 1)
        + "\"target\": /* NodeId */\n"@ + example_indent(indent) + "}\n"@
}

/// The json example of a statement, within `fuel` steps.
pub open spec fn ex_stm(fuel: nat, st: SchemaStm, indent: nat, c: Seq<SchemaStm>, scope: ScopeView) -> Example
    decreases fuel, 0nat,
{
    if fuel == 0 {
        None
    } else {
        let f = (fuel - 1) as nat;
        match st {
            SchemaStm::Import(x) => Some(Ok("/* "@ + x.name@ + " body */"@)),
            SchemaStm::Edge(x) => ex_map(
                ex_fields(f, x.fields@, indent + 2, Some("EdgeId"@), c, scope),
                |fs: Seq<char>| edge_example(x.name@, fs, indent),
            ),
            SchemaStm::Node(x) => ex_map(
                ex_fields(f, x.fields@, indent + 1, Some("NodeId"@), c, scope),
                |fs: Seq<char>| keyed_field_example(x.name@, fs, indent),
            ),
            SchemaStm::Struct(x) => ex_fields(f, x.fields@, indent, None, c, scope),
            SchemaStm::Enum(x) => ex_variants(f, x.varients@, x.varients@.len(), indent, c, scope),
        }
    }
}

/// The line giving the id of an example object.
pub open spec fn id_line(id: Option<Seq<char>>, count: nat, indent: nat) -> Seq<char> {
    match id {
        Some(x) => example_indent(indent + 1) + "\"id\": /* "@ + x + " */"@ + if count > 0 {
            ",\n"@
        } else {
            "\n"@
        },
        None => Seq::empty(),
    }
}

/// The json example object of some fields, with an id of type `id` first if there is one.
pub open spec fn ex_fields(
    fuel: nat,
    fields: Seq<FieldValue>,
    indent: nat,
    id: Option<Seq<char>>,
    c: Seq<SchemaStm>,
    scope: ScopeView,
) -> Example
    decreases fuel, 0nat,
{
    if fuel == 0 {
        None
    } else if fields.len() == 0 && id is None {
        Some(Ok("{}"@))
    } else {
        ex_map(
            ex_rows((fuel - 1) as nat, fields, fields.len(), indent, c, scope),
            |rows: Seq<char>| "{\n"@ + id_line(id, fields.len(), indent) + rows + example_indent(indent) + "}"@,
        )
    }
}

/// The lines of the first `k` fields of an example object.
pub open spec fn ex_rows(fuel: nat, fields: Seq<FieldValue>, k: nat, indent: nat, c: Seq<SchemaStm>, scope: ScopeView) -> Example
    decreases fuel, k,
{
    if fuel == 0 {
        None
    } else if k == 0 {
        Some(Ok(Seq::empty()))
    } else {
        match ex_rows(fuel, fields, (k - 1) as nat, indent, c, scope) {
            Some(Ok(prev)) => ex_map(
                ex_type((fuel - 1) as nat, tree_of(fields[k - 1].field_type), false, indent + 1, c, scope),
                |e: Seq<char>| prev + example_indent(indent + 1) + "\""@ + fields[k - 1].name@ + "\": "@ + e + if k
                    < fields.len() {
                    ",\n"@
                } else {
                    "\n"@
                },
            ),
            o => o,
        }
    }
}

/// The examples of the first `k` variants of an enum, separated by `|`.
pub open spec fn ex_variants(fuel: nat, vs: Seq<EnumVarient>, k: nat, indent: nat, c: Seq<SchemaStm>, scope: ScopeView) -> Example
    decreases fuel, k,
{
    if fuel == 0 {
        None
    } else if k == 0 {
        Some(Ok(Seq::empty()))
    } else {
        match ex_variants(fuel, vs, (k - 1) as nat, indent, c, scope) {
            Some(Ok(prev)) => ex_map(
                ex_variant((fuel - 1) as nat, vs[k - 1], indent + 1, c, scope),
                |e: Seq<char>| prev + e + if k < vs.len() {
                    "\n"@ + example_indent(indent + 1) + "| "@
                } else {
                    Seq::empty()
                },
            ),
            o => o,
        }
    }
}

/// The json example of one enum variant.
pub open spec fn ex_variant(fuel: nat, v: EnumVarient, indent: nat, c: Seq<SchemaStm>, scope: ScopeView) -> Example
    decreases fuel, 0nat,
{
    if fuel == 0 {
        None
    } else {
        let f = (fuel - 1) as nat;
        match v {
            EnumVarient::Unit { name, .. } => Some(Ok("\""@ + name@ + "\""@)),
            EnumVarient::Opaque { name, ty, .. } => ex_map(
                ex_type(f, tree_of(ty), false, indent + 1, c, scope),
                |e: Seq<char>| keyed_field_example(name@, e, indent),
            ),
            EnumVarient::Struct { name, fields, .. } => ex_map(
                ex_fields(f, fields@, indent + 1, None, c, scope),
                |e: Seq<char>| keyed_field_example(name@, e, indent),
            ),
        }
    }
}

/// What a generator returned, read as an example.
pub open spec fn ex_result(r: GenResult<String>) -> Example {
    match r {
        Ok(s) => Some(Ok(s@)),
        Err(GenError::UnknownReference { name }) => Some(Err(name@)),
        Err(_) => None,
    }
}

/// Indentation stays within the machine's integers for `fuel` steps.
pub open spec fn fits(indent: nat, fuel: nat) -> bool {
    indent + 3 * fuel + 3 <= usize::MAX
}

fn indent_text_of(n: usize) -> (r: String)
    ensures
        r@ == example_indent(n as nat),
{
    let mut r = String::new();
    write_example_indent(&mut r, n);
    r
}

/// The first statement of the schema declaring `name`.
pub(crate) fn find_stm<'a>(c: &'a Vec<SchemaStm>, name: &str) -> (r: Option<&'a SchemaStm>)
    ensures
        match r {
            Some(st) => stm_named(c@, name@) == Some(*st),
            None => stm_named(c@, name@) is None,
        },
{
    let n = c.len();
    let mut i: usize = 0;
    assert(c@.skip(0) =~= c@);
    while i < n
        invariant
            n == c@.len(),
            i <= n,
            stm_named(c@, name@) == stm_named(c@.skip(i as int), name@),
        decreases n - i,
    {
        assert(c@.skip(i as int).drop_first() =~= c@.skip(i + 1));
        assert(c@.skip(i as int)[0] == c@[i as int]);
        let st_name = match &c[i] {
            SchemaStm::Node(x) => &x.name,
            SchemaStm::Edge(x) => &x.name,
            SchemaStm::Struct(x) => &x.name,
            SchemaStm::Enum(x) => &x.name,
            SchemaStm::Import(x) => &x.name,
        };
        if str_equal(st_name.as_str(), name) {
            return Some(&c[i]);
        }
        i = i + 1;
    }
    None
}

fn build_local_scope(
    letters: &Vec<String>,
    generics: &Vec<Types>,
    scope: &Vec<(String, Option<Types>)>,
) -> (r: Vec<(String, Option<Types>)>)
    ensures
        scope_view(r@) == local_scope(letters@, trees_of(generics@), scope_view(scope@)),
{
    let m = if letters.len() < generics.len() {
        letters.len()
    } else {
        generics.len()
    };
    proof {
        lemma_trees_of_len(generics@);
    }
    let ghost target = local_scope(letters@, trees_of(generics@), scope_view(scope@));
    let mut r: Vec<(String, Option<Types>)> = Vec::new();
    let mut i: usize = 0;
    while i < m
        invariant
            m <= letters@.len(),
            m <= generics@.len(),
            target.len() == m,
            target == local_scope(letters@, trees_of(generics@), scope_view(scope@)),
            trees_of(generics@).len() == generics@.len(),
            i <= m,
            scope_view(r@) == target.take(i as int),
        decreases m - i,
    {
        let u = match expand_type(&generics[i], scope) {
            Ok(t) => t,
            Err(_) => Types::Str,
        };
        proof {
            lemma_trees_of_index(generics@, i as int);
        }
        let same = match &u {
            Types::Reference { inner, .. } => str_equal(inner.as_str(), letters[i].as_str()),
            _ => false,
        };
        let entry = if same {
            (letters[i].clone(), None)
        } else {
            (letters[i].clone(), Some(u))
        };
        let ghost before = r@;
        r.push(entry);
        proof {
            assert(scope_view(r@) =~= scope_view(before).push(target[i as int]));
            assert(target.take(i + 1) =~= target.take(i as int).push(target[i as int]));
        }
        i = i + 1;
    }
    assert(target.take(m as int) =~= target);
    r
}

fn quoted_of(escaped: bool, text: &str) -> (r: String)
    ensures
        r@ == quoted(escaped, text@),
{
    if escaped {
        let mut r = String::from_str("\"");
        r.append(text);
        r.append("\"");
        r
    } else {
        String::from_str(text)
    }
}

fn list_example_of(e: String, indent: usize) -> (r: String)
    requires
        indent < usize::MAX,
    ensures
        r@ == list_example(e@, indent as nat),
{
    let ind1 = indent_text_of(indent + 1);
    let mut r = String::from_str("[\n");
    r.append(ind1.as_str());
    r.append(e.as_str());
    r.append(",\n");
    r.append(ind1.as_str());
    r.append("...\n");
    r.append(indent_text_of(indent).as_str());
    r.append("]");
    r
}

fn map_example_of(k: String, v: String, indent: usize) -> (r: String)
    requires
        indent < usize::MAX,
    ensures
        r@ == map_example(k@, v@, indent as nat),
{
    let ind1 = indent_text_of(indent + 1);
    let mut r = String::from_str("{\n");
    r.append(ind1.as_str());
    r.append(k.as_str());
    r.append(": ");
    r.append(v.as_str());
    r.append(",\n");
    r.append(ind1.as_str());
    r.append("...\n");
    r.append(indent_text_of(indent).as_str());
    r.append("}");
    r
}

/// The error given when an example does not end within its budget of steps.
fn out_of_budget() -> (e: GenError)
    ensures
        ex_result(Err(e)) is None,
{
    GenError::ExportFailed(String::from_str("the example does not end within its budget of steps"))
}

/// The example of a type, within `fuel` steps.
fn type_example_in(
    ty: &Types,
    escaped: bool,
    indent: usize,
    c: &Vec<SchemaStm>,
    scope: &Vec<(String, Option<Types>)>,
    fuel: usize,
) -> (r: GenResult<String>)
    requires
        fits(indent as nat, fuel as nat),
    ensures
        ex_result(r) == ex_type(fuel as nat, tree_of(*ty), escaped, indent as nat, c@, scope_view(scope@)),
    decreases fuel, 0nat,
{
    if fuel == 0 {
        return Err(out_of_budget());
    }
    let f = fuel - 1;
    match ty {
        Types::Str => Ok(String::from_str("\"Lorem ipsum dolor sit amet\"")),
        Types::Usize => Ok(quoted_of(escaped, "1234")),
        Types::U64 => Ok(quoted_of(escaped, "1234")),
        Types::U32 => Ok(quoted_of(escaped, "1234")),
        Types::U16 => Ok(quoted_of(escaped, "1234")),
        Types::Bool => Ok(quoted_of(escaped, "false")),
        Types::F64 => Ok(quoted_of(escaped, "1234.567")),
        Types::F32 => Ok(quoted_of(escaped, "1234.567")),
        Types::U8 => Ok(quoted_of(escaped, "123")),
        Types::I8 => Ok(quoted_of(escaped, "123")),
        Types::Isize => Ok(quoted_of(escaped, "-1234")),
        Types::I64 => Ok(quoted_of(escaped, "-1234")),
        Types::I32 => Ok(quoted_of(escaped, "-1234")),
        Types::I16 => Ok(quoted_of(escaped, "-1234")),
        Types::Optional { inner } => type_example_in(inner, false, indent, c, scope, f),
        Types::List { inner } => match type_example_in(inner, false, indent + 1, c, scope, f) {
            Ok(e) => Ok(list_example_of(e, indent)),
            Err(e) => Err(e),
        },
        Types::SetOf { inner } => match type_example_in(inner, false, indent + 1, c, scope, f) {
            Ok(e) => Ok(list_example_of(e, indent)),
            Err(e) => Err(e),
        },
        Types::MapOf { key, value } => match type_example_in(key, true, indent, c, scope, f) {
            Ok(k) => match type_example_in(value, false, indent + 1, c, scope, f) {
                Ok(v) => Ok(map_example_of(k, v, indent)),
                Err(e) => Err(e),
            },
            Err(e) => Err(e),
        },
        Types::Reference { inner, generics } => match scope_get(scope, inner.as_str()) {
            Some(Some(rep)) => type_example_in(rep, false, indent, c, scope, f),
            Some(None) => {
                let mut r = String::from_str("/* ");
                r.append(inner.as_str());
                r.append(" */");
                Ok(r)
            },
            None => match find_stm(c, inner.as_str()) {
                None => Err(GenError::UnknownReference { name: inner.clone() }),
                Some(st) => {
                    let local = match st {
                        SchemaStm::Struct(x) => build_local_scope(&x.generics, generics, scope),
                        SchemaStm::Enum(x) => build_local_scope(&x.generics, generics, scope),
                        _ => {
                            let v: Vec<(String, Option<Types>)> = Vec::new();
                            assert(scope_view(v@) =~= local_scope(
                                stm_generics(*st),
                                trees_of(generics@),
                                scope_view(scope@),
                            ));
                            v
                        },
                    };
                    schema_example_in(st, indent, c, &local, f)
                },
            },
        },
    }
}

/// The example of a statement, within `fuel` steps.
fn schema_example_in(
    st: &SchemaStm,
    indent: usize,
    c: &Vec<SchemaStm>,
    scope: &Vec<(String, Option<Types>)>,
    fuel: usize,
) -> (r: GenResult<String>)
    requires
        fits(indent as nat, fuel as nat),
    ensures
        ex_result(r) == ex_stm(fuel as nat, *st, indent as nat, c@, scope_view(scope@)),
    decreases fuel, 0nat,
{
    if fuel == 0 {
        return Err(out_of_budget());
    }
    let f = fuel - 1;
    match st {
        SchemaStm::Import(x) => {
            let mut r = String::from_str("/* ");
            r.append(x.name.as_str());
            r.append(" body */");
            Ok(r)
        },
        SchemaStm::Edge(x) => match fields_example_in(&x.fields, indent + 2, Some("EdgeId"), c, scope, f) {
            Ok(fs) => {
                let weight = match gen_keyed_field_example(x.name.clone(), fs, indent + 1) {
                    Ok(w) => w,
                    Err(_) => String::new(),
                };
                let ind1 = indent_text_of(indent + 1);
                let mut r = String::from_str("{\n");
                r.append(ind1.as_str());
                r.append("\"weight\": ");
                r.append(weight.as_str());
                r.append(",\n");
                r.append(ind1.as_str());
                r.append("\"source\": /* NodeId */,\n");
                r.append(ind1.as_str());
                r.append("\"target\": /* NodeId */\n");
                r.append(indent_text_of(indent).as_str());
                r.append("}\n");
                Ok(r)
            },
            Err(e) => Err(e),
        },
        SchemaStm::Node(x) => match fields_example_in(&x.fields, indent + 1, Some("NodeId"), c, scope, f) {
            Ok(fs) => gen_keyed_field_example(x.name.clone(), fs, indent),
            Err(e) => Err(e),
        },
        SchemaStm::Struct(x) => fields_example_in(&x.fields, indent, None, c, scope, f),
        SchemaStm::Enum(x) => variants_example_in(&x.varients, x.varients.len(), indent, c, scope, f),
    }
}

/// The text of an optional name.
pub open spec fn opt_text(id: Option<&str>) -> Option<Seq<char>> {
    match id {
        Some(x) => Some(x@),
        None => None,
    }
}

/// The example object of some fields, within `fuel` steps.
fn fields_example_in(
    fields: &Vec<FieldValue>,
    indent: usize,
    id: Option<&str>,
    c: &Vec<SchemaStm>,
    scope: &Vec<(String, Option<Types>)>,
    fuel: usize,
) -> (r: GenResult<String>)
    requires
        fits(indent as nat, fuel as nat),
    ensures
        ex_result(r) == ex_fields(fuel as nat, fields@, indent as nat, opt_text(id), c@, scope_view(scope@)),
    decreases fuel, 0nat,
{
    if fuel == 0 {
        return Err(out_of_budget());
    }
    let f = fuel - 1;
    if fields.len() == 0 && id.is_none() {
        return Ok(String::from_str("{}"));
    }
    match rows_example_in(fields, fields.len(), indent, c, scope, f) {
        Ok(rows) => {
            let mut r = String::from_str("{\n");
            let ghost r0 = r@;
            match id {
                Some(x) => {
                    r.append(indent_text_of(indent + 1).as_str());
                    r.append("\"id\": /* ");
                    r.append(x);
                    r.append(" */");
                    if fields.len() > 0 {
                        r.append(",\n");
                    } else {
                        r.append("\n");
                    }
                },
                None => {},
            }
            assert(r@ =~= r0 + id_line(opt_text(id), fields@.len(), indent as nat));
            r.append(rows.as_str());
            r.append(indent_text_of(indent).as_str());
            r.append("}");
            Ok(r)
        },
        Err(e) => Err(e),
    }
}

/// The lines of the first `k` fields of an example object, within `fuel` steps.
fn rows_example_in(
    fields: &Vec<FieldValue>,
    k: usize,
    indent: usize,
    c: &Vec<SchemaStm>,
    scope: &Vec<(String, Option<Types>)>,
    fuel: usize,
) -> (r: GenResult<String>)
    requires
        k <= fields@.len(),
        fits(indent as nat, fuel as nat),
    ensures
        ex_result(r) == ex_rows(fuel as nat, fields@, k as nat, indent as nat, c@, scope_view(scope@)),
    decreases fuel, k,
{
    if fuel == 0 {
        return Err(out_of_budget());
    }
    if k == 0 {
        return Ok(String::new());
    }
    let f = fuel - 1;
    match rows_example_in(fields, k - 1, indent, c, scope, fuel) {
        Ok(prev) => match type_example_in(&fields[k - 1].field_type, false, indent + 1, c, scope, f) {
            Ok(e) => {
                let mut r = prev;
                r.append(indent_text_of(indent + 1).as_str());
                r.append("\"");
                r.append(fields[k - 1].name.as_str());
                r.append("\": ");
                r.append(e.as_str());
                if k < fields.len() {
                    r.append(",\n");
                } else {
                    r.append("\n");
                }
                Ok(r)
            },
            Err(e) => Err(e),
        },
        Err(e) => Err(e),
    }
}

/// The examples of the first `k` variants of an enum, within `fuel` steps.
fn variants_example_in(
    vs: &Vec<EnumVarient>,
    k: usize,
    indent: usize,
    c: &Vec<SchemaStm>,
    scope: &Vec<(String, Option<Types>)>,
    fuel: usize,
) -> (r: GenResult<String>)
    requires
        k <= vs@.len(),
        fits(indent as nat, fuel as nat),
    ensures
        ex_result(r) == ex_variants(fuel as nat, vs@, k as nat, indent as nat, c@, scope_view(scope@)),
    decreases fuel, k,
{
    if fuel == 0 {
        return Err(out_of_budget());
    }
    if k == 0 {
        return Ok(String::new());
    }
    let f = fuel - 1;
    match variants_example_in(vs, k - 1, indent, c, scope, fuel) {
        Ok(prev) => match variant_example_in(&vs[k - 1], indent + 1, c, scope, f) {
            Ok(e) => {
                let mut r = prev;
                r.append(e.as_str());
                let ghost r1 = r@;
                if k < vs.len() {
                    r.append("\n");
                    r.append(indent_text_of(indent + 1).as_str());
                    r.append("| ");
                    assert(r@ =~= r1 + ("\n"@ + example_indent((indent + 1) as nat) + "| "@));
                } else {
                    assert(r@ =~= r1 + Seq::<char>::empty());
                }
                Ok(r)
            },
            Err(e) => Err(e),
        },
        Err(e) => Err(e),
    }
}

/// The example of one enum variant, within `fuel` steps.
fn variant_example_in(
    v: &EnumVarient,
    indent: usize,
    c: &Vec<SchemaStm>,
    scope: &Vec<(String, Option<Types>)>,
    fuel: usize,
) -> (r: GenResult<String>)
    requires
        fits(indent as nat, fuel as nat),
    ensures
        ex_result(r) == ex_variant(fuel as nat, *v, indent as nat, c@, scope_view(scope@)),
    decreases fuel, 0nat,
{
    if fuel == 0 {
        return Err(out_of_budget());
    }
    let f = fuel - 1;
    match v {
        EnumVarient::Unit { name, .. } => {
            let mut r = String::from_str("\"");
            r.append(name.as_str());
            r.append("\"");
            Ok(r)
        },
        EnumVarient::Opaque { name, ty, .. } => match type_example_in(ty, false, indent + 1, c, scope, f) {
            Ok(e) => gen_keyed_field_example(name.clone(), e, indent),
            Err(e) => Err(e),
        },
        EnumVarient::Struct { name, fields, .. } => match fields_example_in(fields, indent + 1, None, c, scope, f) {
            Ok(e) => gen_keyed_field_example(name.clone(), e, indent),
            Err(e) => Err(e),
        },
    }
}

/// The largest budget of steps that keeps the indentation of an example starting at
/// `indent` within the machine's integers.
fn full_budget(indent: usize) -> (b: usize)
    requires
        indent + 3 <= usize::MAX,
    ensures
        fits(indent as nat, b as nat),
        forall|f: nat| fits(indent as nat, f) ==> f <= b,
{
    let m = usize::MAX - 3 - indent;
    let b = m / 3;
    assert(3 * b <= m) by (nonlinear_arith)
        requires
            b == m / 3,
    ;
    assert forall|f: nat| fits(indent as nat, f) implies f <= b by {
        assert(3 * f <= m);
        assert(f <= m / 3) by (nonlinear_arith)
            requires
                3 * f <= m,
        ;
    }
    b
}

/// Some budget of steps, small enough for the indentation, finishes the example of the type.
pub open spec fn type_example_ends(t: TypeTree, escaped: bool, indent: nat, c: Seq<SchemaStm>, scope: ScopeView) -> bool {
    exists|f: nat| #[trigger] ex_type(f, t, escaped, indent, c, scope) is Some && fits(indent, f)
}

/// A budget that finishes the example of the type.
pub open spec fn type_example_fuel(t: TypeTree, escaped: bool, indent: nat, c: Seq<SchemaStm>, scope: ScopeView) -> nat {
    choose|f: nat| #[trigger] ex_type(f, t, escaped, indent, c, scope) is Some && fits(indent, f)
}

/// The json example of a type, at indentation `indent`, in the schema `schema`, with the
/// generic letters of `scope` standing for their types (a later entry replaces an earlier one).
pub fn gen_type_example(
    ty: &Types,
    escaped: bool,
    indent: usize,
    schema: &Schema,
    scope: &Vec<(String, Option<Types>)>,
) -> (r: GenResult<String>)
    requires
        type_example_ends(tree_of(*ty), escaped, indent as nat, schema.content@, scope_view(scope@)),
    ensures
        ex_result(r) == ex_type(
            type_example_fuel(tree_of(*ty), escaped, indent as nat, schema.content@, scope_view(scope@)),
            tree_of(*ty),
            escaped,
            indent as nat,
            schema.content@,
            scope_view(scope@),
        ),
{
    let ghost f = type_example_fuel(tree_of(*ty), escaped, indent as nat, schema.content@, scope_view(scope@));
    let b = full_budget(indent);
    proof {
        law_example_budget(f, b as nat, tree_of(*ty), escaped, indent as nat, schema.content@, scope_view(scope@));
    }
    type_example_in(ty, escaped, indent, &schema.content, scope, b)
}

pub open spec fn schema_example_ends(st: SchemaStm, indent: nat, c: Seq<SchemaStm>, scope: ScopeView) -> bool {
    exists|f: nat| #[trigger] ex_stm(f, st, indent, c, scope) is Some && fits(indent, f)
}

pub open spec fn schema_example_fuel(st: SchemaStm, indent: nat, c: Seq<SchemaStm>, scope: ScopeView) -> nat {
    choose|f: nat| #[trigger] ex_stm(f, st, indent, c, scope) is Some && fits(indent, f)
}

/// The json example of a statement of the schema `schema`.
pub fn gen_schema_example(
    stm: &SchemaStm,
    indent: usize,
    schema: &Schema,
    scope: &Vec<(String, Option<Types>)>,
) -> (r: GenResult<String>)
    requires
        schema_example_ends(*stm, indent as nat, schema.content@, scope_view(scope@)),
    ensures
        ex_result(r) == ex_stm(
            schema_example_fuel(*stm, indent as nat, schema.content@, scope_view(scope@)),
            *stm,
            indent as nat,
            schema.content@,
            scope_view(scope@),
        ),
{
    let ghost f = schema_example_fuel(*stm, indent as nat, schema.content@, scope_view(scope@));
    let b = full_budget(indent);
    proof {
        lemma_stm_budget(f, b as nat, *stm, indent as nat, schema.content@, scope_view(scope@));
    }
    schema_example_in(stm, indent, &schema.content, scope, b)
}

/// The text of an optional name.
pub open spec fn opt_string(id: Option<String>) -> Option<Seq<char>> {
    match id {
        Some(x) => Some(x@),
        None => None,
    }
}

pub open spec fn field_example_ends(
    fields: Seq<FieldValue>,
    indent: nat,
    id: Option<Seq<char>>,
    c: Seq<SchemaStm>,
    scope: ScopeView,
) -> bool {
    exists|f: nat| #[trigger] ex_fields(f, fields, indent, id, c, scope) is Some && fits(indent, f)
}

pub open spec fn field_example_fuel(
    fields: Seq<FieldValue>,
    indent: nat,
    id: Option<Seq<char>>,
    c: Seq<SchemaStm>,
    scope: ScopeView,
) -> nat {
    choose|f: nat| #[trigger] ex_fields(f, fields, indent, id, c, scope) is Some && fits(indent, f)
}

/// The json example object of some fields, with an `id` entry of the type `id_type` first
/// when one is given.
pub fn gen_field_example(
    fields: &Vec<FieldValue>,
    indent: usize,
    id_type: Option<String>,
    schema: &Schema,
    scope: &Vec<(String, Option<Types>)>,
) -> (r: GenResult<String>)
    requires
        field_example_ends(fields@, indent as nat, opt_string(id_type), schema.content@, scope_view(scope@)),
    ensures
        ex_result(r) == ex_fields(
            field_example_fuel(fields@, indent as nat, opt_string(id_type), schema.content@, scope_view(scope@)),
            fields@,
            indent as nat,
            opt_string(id_type),
            schema.content@,
            scope_view(scope@),
        ),
{
    let ghost f = field_example_fuel(fields@, indent as nat, opt_string(id_type), schema.content@, scope_view(scope@));
    let id = match &id_type {
        Some(x) => Some(x.as_str()),
        None => None,
    };
    assert(opt_text(id) == opt_string(id_type));
    let b = full_budget(indent);
    proof {
        lemma_fields_budget(f, b as nat, fields@, indent as nat, opt_string(id_type), schema.content@, scope_view(scope@));
    }
    fields_example_in(fields, indent, id, &schema.content, scope, b)
}

pub open spec fn varient_example_ends(v: EnumVarient, indent: nat, c: Seq<SchemaStm>, scope: ScopeView) -> bool {
    exists|f: nat| #[trigger] ex_variant(f, v, indent, c, scope) is Some && fits(indent, f)
}

pub open spec fn varient_example_fuel(v: EnumVarient, indent: nat, c: Seq<SchemaStm>, scope: ScopeView) -> nat {
    choose|f: nat| #[trigger] ex_variant(f, v, indent, c, scope) is Some && fits(indent, f)
}

/// The json example of one variant of an enum.
pub fn gen_varient_example(
    varient: &EnumVarient,
    indent: usize,
    schema: &Schema,
    scope: &Vec<(String, Option<Types>)>,
) -> (r: GenResult<String>)
    requires
        varient_example_ends(*varient, indent as nat, schema.content@, scope_view(scope@)),
    ensures
        ex_result(r) == ex_variant(
            varient_example_fuel(*varient, indent as nat, schema.content@, scope_view(scope@)),
            *varient,
            indent as nat,
            schema.content@,
            scope_view(scope@),
        ),
{
    let ghost f = varient_example_fuel(*varient, indent as nat, schema.content@, scope_view(scope@));
    let b = full_budget(indent);
    proof {
        lemma_variant_budget(f, b as nat, *varient, indent as nat, schema.content@, scope_view(scope@));
    }
    variant_example_in(varient, indent, &schema.content, scope, b)
}

/// The json example of a type, like `gen_type_example`, within `budget` steps: an error
/// that is no unknown reference when the budget runs out. When it does not, the example is
/// the one `gen_type_example` gives.
pub fn gen_type_example_within(
    ty: &Types,
    escaped: bool,
    indent: usize,
    schema: &Schema,
    scope: &Vec<(String, Option<Types>)>,
    budget: usize,
) -> (r: GenResult<String>)
    requires
        fits(indent as nat, budget as nat),
    ensures
        ({
            let (t, c, sc) = (tree_of(*ty), schema.content@, scope_view(scope@));
            &&& ex_result(r) == ex_type(budget as nat, t, escaped, indent as nat, c, sc)
            &&& ex_result(r) is Some ==> type_example_ends(t, escaped, indent as nat, c, sc) && ex_result(r)
                == ex_type(type_example_fuel(t, escaped, indent as nat, c, sc), t, escaped, indent as nat, c, sc)
        }),
{
    let r = type_example_in(ty, escaped, indent, &schema.content, scope, budget);
    proof {
        let (t, c, sc) = (tree_of(*ty), schema.content@, scope_view(scope@));
        let b = budget as nat;
        if ex_type(b, t, escaped, indent as nat, c, sc) is Some {
            assert(type_example_ends(t, escaped, indent as nat, c, sc));
            let f = type_example_fuel(t, escaped, indent as nat, c, sc);
            if f <= b {
                law_example_budget(f, b, t, escaped, indent as nat, c, sc);
            } else {
                law_example_budget(b, f, t, escaped, indent as nat, c, sc);
            }
        }
    }
    r
}

/// The json example of a statement, like `gen_schema_example`, within `budget` steps: an
/// error that is no unknown reference when the budget runs out.
pub fn gen_schema_example_within(
    stm: &SchemaStm,
    indent: usize,
    schema: &Schema,
    scope: &Vec<(String, Option<Types>)>,
    budget: usize,
) -> (r: GenResult<String>)
    requires
        fits(indent as nat, budget as nat),
    ensures
        ({
            let (c, sc) = (schema.content@, scope_view(scope@));
            &&& ex_result(r) == ex_stm(budget as nat, *stm, indent as nat, c, sc)
            &&& ex_result(r) is Some ==> schema_example_ends(*stm, indent as nat, c, sc) && ex_result(r)
                == ex_stm(schema_example_fuel(*stm, indent as nat, c, sc), *stm, indent as nat, c, sc)
        }),
{
    let r = schema_example_in(stm, indent, &schema.content, scope, budget);
    proof {
        let (c, sc) = (schema.content@, scope_view(scope@));
        let b = budget as nat;
        if ex_stm(b, *stm, indent as nat, c, sc) is Some {
            assert(schema_example_ends(*stm, indent as nat, c, sc));
            let f = schema_example_fuel(*stm, indent as nat, c, sc);
            if f <= b {
                lemma_stm_budget(f, b, *stm, indent as nat, c, sc);
            } else {
                lemma_stm_budget(b, f, *stm, indent as nat, c, sc);
            }
        }
    }
    r
}

/// The json example object of some fields, like `gen_field_example`, within `budget`
/// steps: an error that is no unknown reference when the budget runs out.
pub fn gen_field_example_within(
    fields: &Vec<FieldValue>,
    indent: usize,
    id_type: Option<String>,
    schema: &Schema,
    scope: &Vec<(String, Option<Types>)>,
    budget: usize,
) -> (r: GenResult<String>)
    requires
        fits(indent as nat, budget as nat),
    ensures
        ({
            let (c, sc, id) = (schema.content@, scope_view(scope@), opt_string(id_type));
            &&& ex_result(r) == ex_fields(budget as nat, fields@, indent as nat, id, c, sc)
            &&& ex_result(r) is Some ==> field_example_ends(fields@, indent as nat, id, c, sc) && ex_result(r)
                == ex_fields(field_example_fuel(fields@, indent as nat, id, c, sc), fields@, indent as nat, id, c, sc)
        }),
{
    let id = match &id_type {
        Some(x) => Some(x.as_str()),
        None => None,
    };
    assert(opt_text(id) == opt_string(id_type));
    let r = fields_example_in(fields, indent, id, &schema.content, scope, budget);
    proof {
        let (c, sc, idt) = (schema.content@, scope_view(scope@), opt_string(id_type));
        let b = budget as nat;
        if ex_fields(b, fields@, indent as nat, idt, c, sc) is Some {
            assert(field_example_ends(fields@, indent as nat, idt, c, sc));
            let f = field_example_fuel(fields@, indent as nat, idt, c, sc);
            if f <= b {
                lemma_fields_budget(f, b, fields@, indent as nat, idt, c, sc);
            } else {
                lemma_fields_budget(b, f, fields@, indent as nat, idt, c, sc);
            }
        }
    }
    r
}

/// The json example of one variant of an enum, like `gen_varient_example`, within
/// `budget` steps: an error that is no unknown reference when the budget runs out.
pub fn gen_varient_example_within(
    varient: &EnumVarient,
    indent: usize,
    schema: &Schema,
    scope: &Vec<(String, Option<Types>)>,
    budget: usize,
) -> (r: GenResult<String>)
    requires
        fits(indent as nat, budget as nat),
    ensures
        ({
            let (c, sc) = (schema.content@, scope_view(scope@));
            &&& ex_result(r) == ex_variant(budget as nat, *varient, indent as nat, c, sc)
            &&& ex_result(r) is Some ==> varient_example_ends(*varient, indent as nat, c, sc) && ex_result(r)
                == ex_variant(varient_example_fuel(*varient, indent as nat, c, sc), *varient, indent as nat, c, sc)
        }),
{
    let r = variant_example_in(varient, indent, &schema.content, scope, budget);
    proof {
        let (c, sc) = (schema.content@, scope_view(scope@));
        let b = budget as nat;
        if ex_variant(b, *varient, indent as nat, c, sc) is Some {
            assert(varient_example_ends(*varient, indent as nat, c, sc));
            let f = varient_example_fuel(*varient, indent as nat, c, sc);
            if f <= b {
                lemma_variant_budget(f, b, *varient, indent as nat, c, sc);
            } else {
                lemma_variant_budget(b, f, *varient, indent as nat, c, sc);
            }
        }
    }
    r
}

proof fn lemma_type_step(f: nat, t: TypeTree, escaped: bool, indent: nat, c: Seq<SchemaStm>, scope: ScopeView)
    requires
        ex_type(f, t, escaped, indent, c, scope) is Some,
    ensures
        ex_type(f + 1, t, escaped, indent, c, scope) == ex_type(f, t, escaped, indent, c, scope),
    decreases f, 0nat,
{
    let g = (f - 1) as nat;
    match t {
        TypeTree::Leaf(_) => {},
        TypeTree::Optional(i) => {
            lemma_type_step(g, *i, false, indent, c, scope);
        },
        TypeTree::List(i) => {
            lemma_type_step(g, *i, false, indent + 1, c, scope);
        },
        TypeTree::SetOf(i) => {
            lemma_type_step(g, *i, false, indent + 1, c, scope);
        },
        TypeTree::MapOf(k, v) => {
            lemma_type_step(g, *k, true, indent, c, scope);
            if ex_type(g, *k, true, indent, c, scope) matches Some(Ok(_)) {
                lemma_type_step(g, *v, false, indent + 1, c, scope);
            }
        },
        TypeTree::Reference(name, gs) => match scope_lookup(scope, name) {
            Some(Some(rep)) => {
                lemma_type_step(g, rep, false, indent, c, scope);
            },
            Some(None) => {},
            None => match stm_named(c, name) {
                None => {},
                Some(st) => {
                    lemma_stm_step(g, st, indent, c, local_scope(stm_generics(st), gs, scope));
                },
            },
        },
    }
}

proof fn lemma_stm_step(f: nat, st: SchemaStm, indent: nat, c: Seq<SchemaStm>, scope: ScopeView)
    requires
        ex_stm(f, st, indent, c, scope) is Some,
    ensures
        ex_stm(f + 1, st, indent, c, scope) == ex_stm(f, st, indent, c, scope),
    decreases f, 0nat,
{
    let g = (f - 1) as nat;
    match st {
        SchemaStm::Import(_) => {},
        SchemaStm::Edge(x) => {
            lemma_fields_step(g, x.fields@, indent + 2, Some("EdgeId"@), c, scope);
        },
        SchemaStm::Node(x) => {
            lemma_fields_step(g, x.fields@, indent + 1, Some("NodeId"@), c, scope);
        },
        SchemaStm::Struct(x) => {
            lemma_fields_step(g, x.fields@, indent, None, c, scope);
        },
        SchemaStm::Enum(x) => {
            lemma_variants_step(g, x.varients@, x.varients@.len(), indent, c, scope);
        },
    }
}

proof fn lemma_fields_step(
    f: nat,
    fields: Seq<FieldValue>,
    indent: nat,
    id: Option<Seq<char>>,
    c: Seq<SchemaStm>,
    scope: ScopeView,
)
    requires
        ex_fields(f, fields, indent, id, c, scope) is Some,
    ensures
        ex_fields(f + 1, fields, indent, id, c, scope) == ex_fields(f, fields, indent, id, c, scope),
    decreases f, 0nat,
{
    if !(fields.len() == 0 && id is None) {
        lemma_rows_step((f - 1) as nat, fields, fields.len(), indent, c, scope);
    }
}

proof fn lemma_rows_step(f: nat, fields: Seq<FieldValue>, k: nat, indent: nat, c: Seq<SchemaStm>, scope: ScopeView)
    requires
        ex_rows(f, fields, k, indent, c, scope) is Some,
    ensures
        ex_rows(f + 1, fields, k, indent, c, scope) == ex_rows(f, fields, k, indent, c, scope),
    decreases f, k,
{
    if k > 0 {
        lemma_rows_step(f, fields, (k - 1) as nat, indent, c, scope);
        if ex_rows(f, fields, (k - 1) as nat, indent, c, scope) matches Some(Ok(_)) {
            lemma_type_step((f - 1) as nat, tree_of(fields[k - 1].field_type), false, indent + 1, c, scope);
        }
    }
}

proof fn lemma_variants_step(f: nat, vs: Seq<EnumVarient>, k: nat, indent: nat, c: Seq<SchemaStm>, scope: ScopeView)
    requires
        ex_variants(f, vs, k, indent, c, scope) is Some,
    ensures
        ex_variants(f + 1, vs, k, indent, c, scope) == ex_variants(f, vs, k, indent, c, scope),
    decreases f, k,
{
    if k > 0 {
        lemma_variants_step(f, vs, (k - 1) as nat, indent, c, scope);
        if ex_variants(f, vs, (k - 1) as nat, indent, c, scope) matches Some(Ok(_)) {
            lemma_variant_step((f - 1) as nat, vs[k - 1], indent + 1, c, scope);
        }
    }
}

proof fn lemma_variant_step(f: nat, v: EnumVarient, indent: nat, c: Seq<SchemaStm>, scope: ScopeView)
    requires
        ex_variant(f, v, indent, c, scope) is Some,
    ensures
        ex_variant(f + 1, v, indent, c, scope) == ex_variant(f, v, indent, c, scope),
    decreases f, 0nat,
{
    let g = (f - 1) as nat;
    match v {
        EnumVarient::Unit { .. } => {},
        EnumVarient::Opaque { ty, .. } => {
            lemma_type_step(g, tree_of(ty), false, indent + 1, c, scope);
        },
        EnumVarient::Struct { fields, .. } => {
            lemma_fields_step(g, fields@, indent + 1, None, c, scope);
        },
    }
}

/// An example does not depend on the budget of steps it was given, once the budget
/// finishes it: a larger budget gives the same example.
pub proof fn law_example_budget(
    f: nat,
    g: nat,
    t: TypeTree,
    escaped: bool,
    indent: nat,
    c: Seq<SchemaStm>,
    scope: ScopeView,
)
    requires
        f <= g,
        ex_type(f, t, escaped, indent, c, scope) is Some,
    ensures
        ex_type(g, t, escaped, indent, c, scope) == ex_type(f, t, escaped, indent, c, scope),
    decreases g - f,
{
    if f < g {
        lemma_type_step(f, t, escaped, indent, c, scope);
        law_example_budget(f + 1, g, t, escaped, indent, c, scope);
    }
}

proof fn lemma_stm_budget(f: nat, g: nat, st: SchemaStm, indent: nat, c: Seq<SchemaStm>, scope: ScopeView)
    requires
        f <= g,
        ex_stm(f, st, indent, c, scope) is Some,
    ensures
        ex_stm(g, st, indent, c, scope) == ex_stm(f, st, indent, c, scope),
    decreases g - f,
{
    if f < g {
        lemma_stm_step(f, st, indent, c, scope);
        lemma_stm_budget(f + 1, g, st, indent, c, scope);
    }
}

proof fn lemma_fields_budget(
    f: nat,
    g: nat,
    fields: Seq<FieldValue>,
    indent: nat,
    id: Option<Seq<char>>,
    c: Seq<SchemaStm>,
    scope: ScopeView,
)
    requires
        f <= g,
        ex_fields(f, fields, indent, id, c, scope) is Some,
    ensures
        ex_fields(g, fields, indent, id, c, scope) == ex_fields(f, fields, indent, id, c, scope),
    decreases g - f,
{
    if f < g {
        lemma_fields_step(f, fields, indent, id, c, scope);
        lemma_fields_budget(f + 1, g, fields, indent, id, c, scope);
    }
}

proof fn lemma_variant_budget(f: nat, g: nat, v: EnumVarient, indent: nat, c: Seq<SchemaStm>, scope: ScopeView)
    requires
        f <= g,
        ex_variant(f, v, indent, c, scope) is Some,
    ensures
        ex_variant(g, v, indent, c, scope) == ex_variant(f, v, indent, c, scope),
    decreases g - f,
{
    if f < g {
        lemma_variant_step(f, v, indent, c, scope);
        lemma_variant_budget(f + 1, g, v, indent, c, scope);
    }
}

/// What `str::to_lowercase` gives for a text: its lower case form.
pub uninterp spec fn lowercase_text(s: Seq<char>) -> Seq<char>;

/// The lower case form of an ASCII character: `A` to `Z` become `a` to `z`, the others stay.
pub open spec fn ascii_lower(c: char) -> char {
    if 'A' <= c <= 'Z' {
        ((c as u32) + 32) as char
    } else {
        c
    }
}

/// Calls `str::to_lowercase`, whose result is the lower case form of the text by the
/// Unicode `Lowercase` property; the contract names that result, and says of an ASCII text
/// that its letters `A` to `Z` become `a` to `z` and its other characters stay. Of other
/// texts it says nothing more.
#[verifier::external_body]
pub(crate) fn to_lowercase(s: &str) -> (r: String)
    ensures
        r@ == lowercase_text(s@),
        all_ascii(s@) ==> r@ == s@.map_values(|c: char| ascii_lower(c)),
{
    s.to_lowercase()
}

/// A link in the book to the page `href`, with the text `text`.
pub open spec fn link(href: Seq<char>, text: Seq<char>) -> Seq<char> {
    "<a href=\""@ + href + "\">"@ + text + "</a>"@
}

/// The link of a primitive type to its part of the page about primitives.
pub open spec fn primitive_link(t: Types) -> Seq<char> {
    match t {
        Types::Str => link("../../primitives.md#string"@, "String"@),
        Types::Bool => link("../../primitives.md#bool"@, "bool"@),
        Types::F64 => link("../../primitives.md#f32-f64"@, "f64"@),
        Types::F32 => link("../../primitives.md#f32-f64"@, "f32"@),
        Types::Usize => link("../../primitives.md#u8-u16-u32-u64-usize"@, "usize"@),
        Types::U64 => link("../../primitives.md#u8-u16-u32-u64-usize"@, "u64"@),
        Types::U32 => link("../../primitives.md#u8-u16-u32-u64-usize"@, "u32"@),
        Types::U16 => link("../../primitives.md#u8-u16-u32-u64-usize"@, "u16"@),
        Types::U8 => link("../../primitives.md#u8-u16-u32-u64-usize"@, "u8"@),
        Types::Isize => link("../../primitives.md#i8-i16-i32-i64-isize"@, "isize"@),
        Types::I64 => link("../../primitives.md#i8-i16-i32-i64-isize"@, "i64"@),
        Types::I32 => link("../../primitives.md#i8-i16-i32-i64-isize"@, "i32"@),
        Types::I16 => link("../../primitives.md#i8-i16-i32-i64-isize"@, "i16"@),
        _ => link("../../primitives.md#i8-i16-i32-i64-isize"@, "i8"@),
    }
}

/// The link of a referenced name: to the page of the statement declaring it, or to the
/// anchor `ref_name` of the current page when no statement does.
pub open spec fn reference_link(name: Seq<char>, ref_name: Seq<char>, c: Seq<SchemaStm>) -> Seq<char> {
    match stm_named(c, name) {
        Some(SchemaStm::Node(_)) => link("../nodes/"@ + name + ".md"@, name),
        Some(SchemaStm::Edge(_)) => link("../edges/"@ + name + ".md"@, name),
        Some(SchemaStm::Enum(_)) => link("../types/"@ + name + ".md"@, name),
        Some(SchemaStm::Import(_)) => link("../imports.md#"@ + lowercase_text(name), name),
        Some(SchemaStm::Struct(_)) => link("../structs/"@ + name + ".md"@, name),
        None => link("#"@ + ref_name, name),
    }
}

/// The definition of a type in the book, each part linked to its page.
pub open spec fn type_def(t: Types, ref_name: Seq<char>, c: Seq<SchemaStm>) -> Seq<char>
    decreases t, 0nat,
{
    match t {
        Types::Optional { inner } => link("../../primitives.md#optiont"@, "Option"@) + "<"@ + type_def(
            *inner,
            ref_name,
            c,
        ) + ">"@,
        Types::List { inner } => link("../../primitives.md#listt"@, "List"@) + "<"@ + type_def(*inner, ref_name, c)
            + ">"@,
        Types::SetOf { inner } => link("../../primitives.md#sett"@, "List"@) + "<"@ + type_def(*inner, ref_name, c)
            + ">"@,
        Types::MapOf { key, value } => link("../../primitives.md#mapk-v"@, "Map"@) + "<"@ + type_def(
            *key,
            ref_name,
            c,
        ) + ", "@ + type_def(*value, ref_name, c) + ">"@,
        Types::Reference { inner, generics } => reference_link(inner@, ref_name, c) + if generics@.len() == 0 {
            Seq::empty()
        } else {
            "<"@ + type_def_list(generics@, ref_name, c) + ">"@
        },
        _ => primitive_link(t),
    }
}

/// The definitions of a list of types, joined by `, `.
pub open spec fn type_def_list(ts: Seq<Types>, ref_name: Seq<char>, c: Seq<SchemaStm>) -> Seq<char>
    decreases ts, 1nat,
{
    if ts.len() == 0 {
        Seq::empty()
    } else if ts.len() == 1 {
        type_def(ts[0], ref_name, c)
    } else {
        type_def_list(ts.drop_last(), ref_name, c) + ", "@ + type_def(ts.last(), ref_name, c)
    }
}

fn link_of(href: &str, text: &str) -> (r: String)
    ensures
        r@ == link(href@, text@),
{
    let mut r = String::from_str("<a href=\"");
    r.append(href);
    r.append("\">");
    r.append(text);
    r.append("</a>");
    r
}

fn wrapped_link(href: &str, text: &str, inner: String) -> (r: String)
    ensures
        r@ == link(href@, text@) + "<"@ + inner@ + ">"@,
{
    let mut r = link_of(href, text);
    r.append("<");
    r.append(inner.as_str());
    r.append(">");
    r
}

fn reference_link_of(name: &str, ref_name: &str, c: &Vec<SchemaStm>) -> (r: String)
    ensures
        r@ == reference_link(name@, ref_name@, c@),
{
    let mut href = String::new();
    match find_stm(c, name) {
        Some(SchemaStm::Node(_)) => {
            href.append("../nodes/");
            href.append(name);
            href.append(".md");
        },
        Some(SchemaStm::Edge(_)) => {
            href.append("../edges/");
            href.append(name);
            href.append(".md");
        },
        Some(SchemaStm::Enum(_)) => {
            href.append("../types/");
            href.append(name);
            href.append(".md");
        },
        Some(SchemaStm::Import(_)) => {
            href.append("../imports.md#");
            href.append(to_lowercase(name).as_str());
        },
        Some(SchemaStm::Struct(_)) => {
            href.append("../structs/");
            href.append(name);
            href.append(".md");
        },
        None => {
            href.append("#");
            href.append(ref_name);
        },
    }
    link_of(href.as_str(), name)
}

/// The definition of a type in the book, each part linked to its page; `ref_name` is the
/// anchor of names that no statement declares.
pub fn gen_type_def(ty: &Types, ref_name: &str, schema: &Schema) -> (r: GenResult<String>)
    ensures
        r matches Ok(d) && d@ == type_def(*ty, ref_name@, schema.content@),
{
    Ok(type_def_of(ty, ref_name, &schema.content))
}

fn type_def_of(ty: &Types, ref_name: &str, c: &Vec<SchemaStm>) -> (r: String)
    ensures
        r@ == type_def(*ty, ref_name@, c@),
    decreases ty, 0nat,
{
    match ty {
        Types::Str => link_of("../../primitives.md#string", "String"),
        Types::Bool => link_of("../../primitives.md#bool", "bool"),
        Types::F64 => link_of("../../primitives.md#f32-f64", "f64"),
        Types::F32 => link_of("../../primitives.md#f32-f64", "f32"),
        Types::Usize => link_of("../../primitives.md#u8-u16-u32-u64-usize", "usize"),
        Types::U64 => link_of("../../primitives.md#u8-u16-u32-u64-usize", "u64"),
        Types::U32 => link_of("../../primitives.md#u8-u16-u32-u64-usize", "u32"),
        Types::U16 => link_of("../../primitives.md#u8-u16-u32-u64-usize", "u16"),
        Types::U8 => link_of("../../primitives.md#u8-u16-u32-u64-usize", "u8"),
        Types::Isize => link_of("../../primitives.md#i8-i16-i32-i64-isize", "isize"),
        Types::I64 => link_of("../../primitives.md#i8-i16-i32-i64-isize", "i64"),
        Types::I32 => link_of("../../primitives.md#i8-i16-i32-i64-isize", "i32"),
        Types::I16 => link_of("../../primitives.md#i8-i16-i32-i64-isize", "i16"),
        Types::I8 => link_of("../../primitives.md#i8-i16-i32-i64-isize", "i8"),
        Types::Optional { inner } => wrapped_link("../../primitives.md#optiont", "Option", type_def_of(inner, ref_name, c)),
        Types::List { inner } => wrapped_link("../../primitives.md#listt", "List", type_def_of(inner, ref_name, c)),
        Types::SetOf { inner } => wrapped_link("../../primitives.md#sett", "List", type_def_of(inner, ref_name, c)),
        Types::MapOf { key, value } => {
            let mut inner = type_def_of(key, ref_name, c);
            inner.append(", ");
            inner.append(type_def_of(value, ref_name, c).as_str());
            wrapped_link("../../primitives.md#mapk-v", "Map", inner)
        },
        Types::Reference { inner, generics } => {
            let mut r = reference_link_of(inner.as_str(), ref_name, c);
            if generics.len() > 0 {
                r.append("<");
                r.append(type_def_list_of(generics, ref_name, c).as_str());
                r.append(">");
            }
            r
        },
    }
}

fn type_def_list_of(v: &Vec<Types>, ref_name: &str, c: &Vec<SchemaStm>) -> (r: String)
    ensures
        r@ == type_def_list(v@, ref_name@, c@),
    decreases v, 1nat,
{
    let mut r = String::new();
    let n = v.len();
    let mut i: usize = 0;
    while i < n
        invariant
            n == v@.len(),
            i <= n,
            r@ == type_def_list(v@.take(i as int), ref_name@, c@),
        decreases n - i,
    {
        proof {
            assert(decreases_to!(v => v@[i as int]));
            assert(v@.take(i + 1).drop_last() =~= v@.take(i as int));
        }
        let ghost before = r@;
        if i > 0 {
            r.append(", ");
        }
        r.append(type_def_of(&v[i], ref_name, c).as_str());
        proof {
            if i == 0 {
                assert(r@ =~= type_def_list(v@.take(1), ref_name@, c@));
            }
        }
        i = i + 1;
    }
    assert(v@.take(n as int) =~= v@);
    r
}


/// The example of an unsigned integer type is a number with no sign: ASCII digits only,
/// in double quotes where the example is a key; and `usize`, `u64`, `u32` and `u16` share
/// one example.
pub proof fn law_unsigned_examples(
    t: Types,
    fuel: nat,
    escaped: bool,
    indent: nat,
    c: Seq<SchemaStm>,
    scope: ScopeView,
)
    requires
        fuel > 0,
        t is Usize || t is U64 || t is U32 || t is U16 || t is U8,
    ensures
        ex_type(fuel, tree_of(t), false, indent, c, scope) matches Some(Ok(d)) && {
            &&& d.len() > 0
            &&& all_ascii_digits(d)
            &&& ex_type(fuel, tree_of(t), true, indent, c, scope) == Some(
                Ok::<Seq<char>, Seq<char>>(seq!['"'] + d + seq!['"']),
            )
        },
        !(t is U8) ==> ex_type(fuel, tree_of(t), escaped, indent, c, scope) == ex_type(
            fuel,
            tree_of(Types::U64),
            escaped,
            indent,
            c,
            scope,
        ),
{
    reveal_strlit("1234");
    reveal_strlit("123");
    reveal_strlit("\"");
    assert("\""@ =~= seq!['"']);
}
} // verus!
