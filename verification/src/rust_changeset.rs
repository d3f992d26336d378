use vstd::prelude::*;
use vstd::string::*;

use crate::project::str_equal;
use crate::rust_schema::schema_name_text;
use crate::schema::{ChangeKind, ChangeSet, EdgeExp, FieldValue, NodeExp, Schema, SchemaStm, SingleChange};
use crate::text::{
    concat_map, fill, fill_holes, join_texts, join_wrapped, lemma_concat_map_all,
    lemma_concat_map_step, replace_dots, str_texts, texts, wrap_texts, write_fill, write_holes,
};
use crate::to_rust_type::{conversion, gen_compatible, ToRustType};
use crate::types::Types;

verus! {

/// The change is at `path`.
pub open spec fn change_at(c: SingleChange, path: Seq<Seq<char>>) -> bool {
    texts(c.path@) == path
}

/// The changeset adds the field at `path`.
pub open spec fn adds_field_at(cs: Seq<SingleChange>, path: Seq<Seq<char>>) -> bool {
    exists|i: int| 0 <= i < cs.len() && change_at(#[trigger] cs[i], path) && cs[i].kind is AddedField
}

/// The first change of the type of the field at `path`, as (old type, new type).
pub open spec fn first_type_change(cs: Seq<SingleChange>, path: Seq<Seq<char>>) -> Option<(Types, Types)>
    decreases cs.len(),
{
    if cs.len() == 0 {
        None
    } else {
        match first_type_change(cs.drop_last(), path) {
            Some(t) => Some(t),
            None => match cs.last().kind {
                ChangeKind::EditedFieldType { old_type, new_type } => if change_at(cs.last(), path) {
                    Some((old_type, new_type))
                } else {
                    None
                },
                _ => None,
            },
        }
    }
}

/// The old generic letters the changeset records for the type at `path`, in order.
pub open spec fn edited_old_generics(cs: Seq<SingleChange>, path: Seq<Seq<char>>) -> Seq<Seq<char>>
    decreases cs.len(),
{
    if cs.len() == 0 {
        Seq::empty()
    } else {
        edited_old_generics(cs.drop_last(), path) + match cs.last().kind {
            ChangeKind::EditedGenerics { old_generics } => if change_at(cs.last(), path) {
                texts(old_generics@)
            } else {
                Seq::empty()
            },
            _ => Seq::empty(),
        }
    }
}

fn path_is(c: &SingleChange, path: &[&str]) -> (r: bool)
    ensures
        r == change_at(*c, str_texts(path@)),
{
    let n = path.len();
    if c.path.len() != n {
        assert(texts(c.path@).len() != str_texts(path@).len());
        return false;
    }
    let mut i: usize = 0;
    while i < n
        invariant
            n == path@.len(),
            n == c.path@.len(),
            i <= n,
            forall|j: int| 0 <= j < i ==> c.path@[j]@ == path@[j]@,
        decreases n - i,
    {
        if !str_equal(c.path[i].as_str(), path[i]) {
            assert(texts(c.path@)[i as int] != str_texts(path@)[i as int]);
            return false;
        }
        i = i + 1;
    }
    assert(texts(c.path@) =~= str_texts(path@));
    true
}

/// Whether the changeset adds the field at `path`.
pub fn has_added_field(changes: &Vec<SingleChange>, path: &[&str]) -> (r: bool)
    ensures
        r == adds_field_at(changes@, str_texts(path@)),
{
    let n = changes.len();
    let mut i: usize = 0;
    while i < n
        invariant
            n == changes@.len(),
            i <= n,
            forall|j: int|
                0 <= j < i ==> !(change_at(#[trigger] changes@[j], str_texts(path@))
                    && changes@[j].kind is AddedField),
        decreases n - i,
    {
        let c = &changes[i];
        match c.kind {
            ChangeKind::AddedField => {
                if path_is(c, path) {
                    return true;
                }
            },
            _ => {},
        }
        i = i + 1;
    }
    false
}

/// The first change of the type of the field at `path`.
pub fn find_type_change<'a>(changes: &'a Vec<SingleChange>, path: &[&str]) -> (r: Option<(&'a Types, &'a Types)>)
    ensures
        match r {
            Some((a, b)) => first_type_change(changes@, str_texts(path@)) == Some((*a, *b)),
            None => first_type_change(changes@, str_texts(path@)) is None,
        },
{
    let n = changes.len();
    let mut i: usize = 0;
    while i < n
        invariant
            n == changes@.len(),
            i <= n,
            first_type_change(changes@.subrange(0, i as int), str_texts(path@)) is None,
        decreases n - i,
    {
        proof {
            assert(changes@.subrange(0, i + 1).drop_last() =~= changes@.subrange(0, i as int));
        }
        let c = &changes[i];
        match &c.kind {
            ChangeKind::EditedFieldType { old_type, new_type } => {
                if path_is(c, path) {
                    proof {
                        lemma_first_type_change_prefix(changes@, i + 1, str_texts(path@));
                    }
                    return Some((old_type, new_type));
                }
            },
            _ => {},
        }
        i = i + 1;
    }
    proof {
        assert(changes@.subrange(0, n as int) =~= changes@);
    }
    None
}

proof fn lemma_first_type_change_prefix(cs: Seq<SingleChange>, k: int, path: Seq<Seq<char>>)
    requires
        0 <= k <= cs.len(),
        first_type_change(cs.subrange(0, k), path) is Some,
    ensures
        first_type_change(cs, path) == first_type_change(cs.subrange(0, k), path),
    decreases cs.len() - k,
{
    if k < cs.len() {
        assert(cs.subrange(0, k + 1).drop_last() =~= cs.subrange(0, k));
        lemma_first_type_change_prefix(cs, k + 1, path);
    } else {
        assert(cs.subrange(0, k) =~= cs);
    }
}

/// The old and new generic letters of a type: the old ones are those the changeset
/// records for the type, or the type's own letters when it records none.
pub open spec fn generic_changes(owner_name: Seq<char>, generics: Seq<String>, cs: Seq<SingleChange>) -> (
    Seq<Seq<char>>,
    Seq<Seq<char>>,
) {
    let edited = edited_old_generics(cs, seq![owner_name]);
    (if edited.len() == 0 {
        texts(generics)
    } else {
        edited
    }, texts(generics))
}

/// The old and new generic letters of the type `owner_name`, as `generic_changes` describes them.
pub fn get_generic_changes(owner_name: &String, generics: &Vec<String>, changeset: &ChangeSet) -> (r: (
    Vec<String>,
    Vec<String>,
))
    ensures
        (texts(r.0@), texts(r.1@)) == generic_changes(owner_name@, generics@, changeset.changes@),
{
    let ghost path = seq![owner_name@];
    let mut old_generics: Vec<String> = Vec::new();
    let n = changeset.changes.len();
    let mut i: usize = 0;
    while i < n
        invariant
            n == changeset.changes@.len(),
            i <= n,
            path == seq![owner_name@],
            texts(old_generics@) == edited_old_generics(
                changeset.changes@.subrange(0, i as int),
                path,
            ),
        decreases n - i,
    {
        proof {
            assert(changeset.changes@.subrange(0, i + 1).drop_last() =~= changeset.changes@.subrange(
                0,
                i as int,
            ));
        }
        let c = &changeset.changes[i];
        let ghost before = texts(old_generics@);
        match &c.kind {
            ChangeKind::EditedGenerics { old_generics: letters } => {
                let at = [owner_name.as_str()];
                assert(str_texts(at@) =~= path);
                if path_is(c, &at) {
                    let m = letters.len();
                    let mut j: usize = 0;
                    while j < m
                        invariant
                            m == letters@.len(),
                            j <= m,
                            texts(old_generics@) == before + texts(letters@.subrange(0, j as int)),
                        decreases m - j,
                    {
                        let ghost prev = old_generics@;
                        old_generics.push(letters[j].clone());
                        proof {
                            assert(texts(old_generics@) =~= texts(prev).push(letters@[j as int]@));
                            assert(texts(letters@.subrange(0, j + 1)) =~= texts(
                                letters@.subrange(0, j as int),
                            ).push(letters@[j as int]@));
                        }
                        j = j + 1;
                    }
                    assert(letters@.subrange(0, m as int) =~= letters@);
                }
            },
            _ => {},
        }
        proof {
            assert(texts(old_generics@) =~= edited_old_generics(
                changeset.changes@.subrange(0, i + 1),
                path,
            ));
        }
        i = i + 1;
    }
    proof {
        assert(changeset.changes@.subrange(0, n as int) =~= changeset.changes@);
    }
    let mut new_generics: Vec<String> = Vec::new();
    let m = generics.len();
    let mut j: usize = 0;
    while j < m
        invariant
            m == generics@.len(),
            j <= m,
            new_generics@.len() == j,
            forall|k: int| 0 <= k < j ==> new_generics@[k]@ == generics@[k]@,
        decreases m - j,
    {
        new_generics.push(generics[j].clone());
        j = j + 1;
    }
    assert(texts(new_generics@) =~= texts(generics@));
    if old_generics.len() == 0 {
        assert(texts(old_generics@).len() == 0);
        let mut copy: Vec<String> = Vec::new();
        let mut k: usize = 0;
        while k < m
            invariant
                m == generics@.len(),
                k <= m,
                copy@.len() == k,
                forall|x: int| 0 <= x < k ==> copy@[x]@ == generics@[x]@,
            decreases m - k,
        {
            copy.push(generics[k].clone());
            k = k + 1;
        }
        assert(texts(copy@) =~= texts(generics@));
        (copy, new_generics)
    } else {
        (old_generics, new_generics)
    }
}

/// `<...>` around the letters, each followed by `suffix`, when the joined letters are not empty.
pub open spec fn suffixed_generics(letters: Seq<Seq<char>>, suffix: Seq<char>) -> Seq<char> {
    let joined = join_texts(wrap_texts(letters, Seq::empty(), suffix), ", "@);
    if joined.len() == 0 {
        Seq::empty()
    } else {
        "<"@ + joined + ">"@
    }
}

/// The generics of the new and of the old version of a type, as they are written in a
/// conversion: `<ANew, BNew>` and `<AOld>`.
pub fn create_generics(owner_name: &String, generics: &Vec<String>, changeset: &ChangeSet) -> (r: (
    String,
    String,
))
    ensures
        ({
            let (old, new) = generic_changes(owner_name@, generics@, changeset.changes@);
            r.0@ == suffixed_generics(new, "New"@) && r.1@ == suffixed_generics(old, "Old"@)
        }),
{
    let (old_generics, new_generics) = get_generic_changes(owner_name, generics, changeset);
    let fmt_old = join_wrapped(&old_generics, "", "Old", ", ");
    let fmt_new = join_wrapped(&new_generics, "", "New", ", ");
    proof {
        reveal_strlit("");
        assert(""@ =~= Seq::<char>::empty());
    }
    let old_type_generics = if fmt_old.unicode_len() > 0 {
        let mut t = String::from_str("<");
        t.append(fmt_old.as_str());
        t.append(">");
        t
    } else {
        String::new()
    };
    let new_type_generics = if fmt_new.unicode_len() > 0 {
        let mut t = String::from_str("<");
        t.append(fmt_new.as_str());
        t.append(">");
        t
    } else {
        String::new()
    };
    (new_type_generics, old_type_generics)
}

/// The line that sets one field in the conversion of a node from its old version.
pub open spec fn node_from_field(node: Seq<char>, cs: Seq<SingleChange>) -> spec_fn(FieldValue) -> Seq<char> {
    |f: FieldValue|
        if adds_field_at(cs, seq![node, f.name@]) {
            "           "@ + f.name@ + ": Default::default()\n"@
        } else {
            "           "@ + f.name@ + ": other."@ + f.name@ + ".into(),\n"@
        }
}

/// The conversion of a node from its old version `parent_ty`.
pub open spec fn node_from_text(n: NodeExp, cs: ChangeSet, parent_ty: Seq<char>) -> Seq<char> {
    "\n"@ + "impl<NK> From<"@ + parent_ty + "<NK>> for "@ + n.name@ + "<NK> {\n"@
        + "    fn from(other: "@ + parent_ty + "<NK>) -> Self {\n"@ + "       "@ + n.name@ + " {\n"@
        + "           id: other.id.into(),\n"@ + concat_map(
        n.fields@,
        node_from_field(n.name@, cs.changes@),
    ) + "       }\n"@ + "    }\n"@ + "}\n"@
}

/// The conversion of a node from its old version, the type `parent_ty`: fields that the
/// changeset adds get their default value, the others are converted.
pub fn write_node_from(n: &NodeExp, changeset: &ChangeSet, parent_ty: &String) -> (r: String)
    ensures
        r@ == node_from_text(*n, *changeset, parent_ty@),
{
    let mut s = String::new();
    s.append("\n");
    s.append("impl<NK> From<");
    s.append(parent_ty.as_str());
    s.append("<NK>> for ");
    s.append(n.name.as_str());
    s.append("<NK> {\n");
    s.append("    fn from(other: ");
    s.append(parent_ty.as_str());
    s.append("<NK>) -> Self {\n");
    s.append("       ");
    s.append(n.name.as_str());
    s.append(" {\n");
    s.append("           id: other.id.into(),\n");
    let ghost start = s@;
    let ghost f = node_from_field(n.name@, changeset.changes@);
    let m = n.fields.len();
    let mut i: usize = 0;
    while i < m
        invariant
            m == n.fields@.len(),
            i <= m,
            f == node_from_field(n.name@, changeset.changes@),
            s@ == start + concat_map(n.fields@.subrange(0, i as int), f),
        decreases m - i,
    {
        proof {
            lemma_concat_map_step(n.fields@, i as int, f);
        }
        let ghost before = s@;
        let name = n.fields[i].name.as_str();
        let path = [n.name.as_str(), name];
        assert(str_texts(path@) =~= seq![n.name@, name@]);
        if has_added_field(&changeset.changes, &path) {
            s.append("           ");
            s.append(name);
            s.append(": Default::default()\n");
        } else {
            s.append("           ");
            s.append(name);
            s.append(": other.");
            s.append(name);
            s.append(".into(),\n");
        }
        assert(s@ =~= before + f(n.fields@[i as int]));
        i = i + 1;
    }
    proof {
        lemma_concat_map_all(n.fields@, f);
    }
    s.append("       }\n");
    s.append("    }\n");
    s.append("}\n");
    assert(s@ =~= node_from_text(*n, *changeset, parent_ty@));
    s
}

/// The line that sets one field in the conversion of an edge from its old version.
pub open spec fn edge_from_field(edge: Seq<char>, cs: Seq<SingleChange>) -> spec_fn(FieldValue) -> Seq<char> {
    |f: FieldValue|
        {
            let path = seq![edge, f.name@];
            let var = "other."@ + f.name@;
            if adds_field_at(cs, path) {
                "           "@ + f.name@ + ": Default::default(),\n"@
            } else {
                match first_type_change(cs, path) {
                    Some(tc) => if !gen_compatible(tc.0, tc.1) {
                        "           "@ + f.name@ + ": /* Insert convertion */,\n"@
                    } else {
                        "           "@ + f.name@ + ": "@ + conversion(tc.0, var, true, tc.1) + ",\n"@
                    },
                    None => "           "@ + f.name@ + ": "@ + conversion(
                        f.field_type,
                        var,
                        true,
                        f.field_type,
                    ) + ",\n"@,
                }
            }
        }
}

/// The field cannot be converted by generated code: its type changed to one that the old
/// type does not convert to.
pub open spec fn needs_manual(edge: Seq<char>, cs: Seq<SingleChange>, f: FieldValue) -> bool {
    let path = seq![edge, f.name@];
    !adds_field_at(cs, path) && match first_type_change(cs, path) {
        Some(tc) => !gen_compatible(tc.0, tc.1),
        None => false,
    }
}

/// The conversion of an edge from its old version `parent_ty`, before it is commented out.
pub open spec fn edge_try_from_text(e: EdgeExp, cs: ChangeSet, parent_ty: Seq<char>) -> Seq<char> {
    "impl<EK> TryFrom<"@ + parent_ty + "<EK>> for "@ + e.name@ + "<EK> {\n"@
        + "    type Error = GenericTypedError<String, String>;\n"@ + "\n"@
        + "    fn try_from(other: "@ + parent_ty
        + "<EK>) -> GenericTypedResult<Self, String, String> {\n"@ + "        Ok("@ + e.name@
        + " {\n"@ + "            id: other.id.into(),\n"@ + concat_map(
        e.fields@,
        edge_from_field(e.name@, cs.changes@),
    ) + "       })\n"@ + "    }\n"@ + "}\n"@
}

/// The conversion of an edge from its old version; commented out, for a manual
/// implementation, when a field cannot be converted.
pub open spec fn edge_from_text(e: EdgeExp, cs: ChangeSet, parent_ty: Seq<char>) -> Seq<char> {
    if exists|i: int| 0 <= i < e.fields@.len() && needs_manual(e.name@, cs.changes@, #[trigger] e.fields@[i]) {
        "/*Requires manual implementation\n"@ + edge_try_from_text(e, cs, parent_ty) + "*/"@
    } else {
        edge_try_from_text(e, cs, parent_ty)
    }
}

/// The conversion of an edge from its old version, the type `parent_ty`.
pub fn write_edge_from(e: &EdgeExp, changeset: &ChangeSet, parent_ty: &String) -> (r: String)
    ensures
        r@ == edge_from_text(*e, *changeset, parent_ty@),
{
    let mut s = String::new();
    s.append("impl<EK> TryFrom<");
    s.append(parent_ty.as_str());
    s.append("<EK>> for ");
    s.append(e.name.as_str());
    s.append("<EK> {\n");
    s.append("    type Error = GenericTypedError<String, String>;\n");
    s.append("\n");
    s.append("    fn try_from(other: ");
    s.append(parent_ty.as_str());
    s.append("<EK>) -> GenericTypedResult<Self, String, String> {\n");
    s.append("        Ok(");
    s.append(e.name.as_str());
    s.append(" {\n");
    s.append("            id: other.id.into(),\n");
    let ghost start = s@;
    let ghost f = edge_from_field(e.name@, changeset.changes@);
    let mut omit = false;
    let m = e.fields.len();
    let mut i: usize = 0;
    while i < m
        invariant
            m == e.fields@.len(),
            i <= m,
            f == edge_from_field(e.name@, changeset.changes@),
            s@ == start + concat_map(e.fields@.subrange(0, i as int), f),
            omit == exists|j: int|
                0 <= j < i && needs_manual(e.name@, changeset.changes@, #[trigger] e.fields@[j]),
        decreases m - i,
    {
        proof {
            lemma_concat_map_step(e.fields@, i as int, f);
        }
        let ghost before = s@;
        let field = &e.fields[i];
        let name = field.name.as_str();
        let path = [e.name.as_str(), name];
        assert(str_texts(path@) =~= seq![e.name@, name@]);
        let mut var = String::from_str("other.");
        var.append(name);
        if has_added_field(&changeset.changes, &path) {
            s.append("           ");
            s.append(name);
            s.append(": Default::default(),\n");
        } else {
            match find_type_change(&changeset.changes, &path) {
                Some((old_type, new_type)) => {
                    if !old_type.is_gen_compatible(new_type) {
                        omit = true;
                        s.append("           ");
                        s.append(name);
                        s.append(": /* Insert convertion */,\n");
                    } else {
                        let conv = old_type.gen_convertion(var, true, new_type);
                        s.append("           ");
                        s.append(name);
                        s.append(": ");
                        s.append(conv.as_str());
                        s.append(",\n");
                    }
                },
                None => {
                    let conv = field.field_type.gen_convertion(var, true, &field.field_type);
                    s.append("           ");
                    s.append(name);
                    s.append(": ");
                    s.append(conv.as_str());
                    s.append(",\n");
                },
            }
        }
        assert(s@ =~= before + f(e.fields@[i as int]));
        proof {
            if needs_manual(e.name@, changeset.changes@, e.fields@[i as int]) {
                assert(omit);
            }
        }
        i = i + 1;
    }
    proof {
        lemma_concat_map_all(e.fields@, f);
    }
    s.append("       })\n");
    s.append("    }\n");
    s.append("}\n");
    assert(s@ =~= edge_try_from_text(*e, *changeset, parent_ty@));
    if omit {
        let mut r = String::from_str("/*Requires manual implementation\n");
        r.append(s.as_str());
        r.append("*/");
        r
    } else {
        s
    }
}

/// The name a statement declares.
pub open spec fn stm_name(st: SchemaStm) -> Seq<char> {
    match st {
        SchemaStm::Node(n) => n.name@,
        SchemaStm::Edge(n) => n.name@,
        SchemaStm::Struct(n) => n.name@,
        SchemaStm::Enum(n) => n.name@,
        SchemaStm::Import(n) => n.name@,
    }
}

/// Some statement of `c` declares the name `name`.
pub open spec fn declares(c: Seq<SchemaStm>, name: Seq<char>) -> bool {
    exists|i: int| 0 <= i < c.len() && stm_name(#[trigger] c[i]) == name
}

fn stm_name_of(st: &SchemaStm) -> (r: &String)
    ensures
        r@ == stm_name(*st),
{
    match st {
        SchemaStm::Node(n) => &n.name,
        SchemaStm::Edge(n) => &n.name,
        SchemaStm::Struct(n) => &n.name,
        SchemaStm::Enum(n) => &n.name,
        SchemaStm::Import(n) => &n.name,
    }
}

/// Whether some statement of `content` declares `name`.
pub fn declares_name(content: &Vec<SchemaStm>, name: &str) -> (r: bool)
    ensures
        r == declares(content@, name@),
{
    let n = content.len();
    let mut i: usize = 0;
    while i < n
        invariant
            n == content@.len(),
            i <= n,
            forall|j: int| 0 <= j < i ==> stm_name(#[trigger] content@[j]) != name@,
        decreases n - i,
    {
        if str_equal(stm_name_of(&content[i]).as_str(), name) {
            return true;
        }
        i = i + 1;
    }
    false
}

/// The arm of a migration for each statement of kind `node` (nodes when true, edges
/// otherwise) of the old schema: `kept` with the holes (name, new path, name, `fourth`)
/// when the new schema declares the name, `dropped` with the name otherwise.
pub open spec fn migrate_arm(
    node: bool,
    new_content: Seq<SchemaStm>,
    kept: Seq<&str>,
    dropped: Seq<&str>,
    new_path: Seq<char>,
    fourth: Seq<char>,
) -> spec_fn(SchemaStm) -> Seq<char> {
    |st: SchemaStm|
        {
            let name = stm_name(st);
            if (node && st is Node) || (!node && st is Edge) {
                if declares(new_content, name) {
                    fill_holes(kept, seq![name, new_path, name, fourth])
                } else {
                    fill(dropped, name)
                }
            } else {
                Seq::empty()
            }
        }
}

pub open spec fn update_node_kept() -> Seq<&'static str> {
    seq![
        "            Node::",
        "(e) => Ok(Some(",
        "::Node::",
        "(e.try_into().map_err(|e: UpgradeError| SchemaError::<NK, EK, ",
        "<NK, EK>>::UpgradeError(e))?))),\n",
    ]
}

pub open spec fn update_edge_kept() -> Seq<&'static str> {
    seq![
        "            Edge::",
        "(e) => Ok(Some(",
        "::Edge::",
        "(e.try_into().map_err(|e: UpgradeError| SchemaError::<NK, EK, ",
        "<NK, EK>>::UpgradeError(e))?))),\n",
    ]
}

pub open spec fn update_edge_type_kept() -> Seq<&'static str> {
    seq!["            EdgeType::", " => Some(", "::EdgeType::", "),\n", ""]
}

pub open spec fn update_node_type_kept() -> Seq<&'static str> {
    seq!["            NodeType::", " => Some(", "::NodeType::", "),\n", ""]
}

/// The migration from the old schema to the new one, which lives at `new_path`.
pub open spec fn migrate_schema_text(
    old_schema: Schema,
    new_schema: Schema,
    handler: Option<Seq<char>>,
    new_path: Seq<char>,
) -> Seq<char> {
    let old_name = schema_name_text(old_schema.version@);
    let full = new_path + "::"@ + schema_name_text(new_schema.version@);
    let h = match handler {
        Some(x) => x,
        None => "DefaultMigrationHandler"@,
    };
    let c = old_schema.content@;
    let nc = new_schema.content@;
    fill_holes(
        seq![
            "impl<NK, EK> MigrateSchema<NK, EK, ",
            "<NK, EK>> for ",
            "<NK, EK>\nwhere\n    NK: Key,\n    EK: Key\n{\n    fn update_node(&self, _new_schema: &",
            "<NK, EK>, node: Self::N) -> SchemaResult<Option<<",
            "<NK, EK> as SchemaExt<NK, EK>>::N>, NK, EK, ",
            "<NK, EK>> {\n        match node {\n",
        ],
        seq![full, old_name, full, full, full],
    ) + concat_map(
        c,
        migrate_arm(true, nc, update_node_kept(), seq!["            Node::", "(_) => Ok(None),\n"], new_path, full),
    ) + fill(
        seq![
            "           #[allow(unreachable_patterns)]\n           _ => Ok(None)\n        }\n    }\n\n    fn update_edge(&self, _new_schema: &",
            "<NK, EK>, edge: Self::E) -> SchemaResult<Option<<",
            "<NK, EK> as SchemaExt<NK, EK>>::E>, NK, EK, ",
            "<NK, EK>> {\n        match edge {\n",
        ],
        full,
    ) + concat_map(
        c,
        migrate_arm(false, nc, update_edge_kept(), seq!["            Edge::", "(_) => Ok(None),\n"], new_path, full),
    ) + fill(
        seq![
            "            #[allow(unreachable_patterns)]\n            _ => Ok(None)\n        }\n    }\n\n     fn update_edge_type(&self, _new_schema: &",
            "<NK, EK>, edge_type: <Self::E as Typed>::Type) -> Option<<<",
            "<NK, EK> as SchemaExt<NK, EK>>::E as Typed>::Type> {\n        match edge_type {\n",
        ],
        full,
    ) + concat_map(
        c,
        migrate_arm(false, nc, update_edge_type_kept(), seq!["            EdgeType::", " => None,\n"], new_path, ""@),
    ) + fill(
        seq![
            "            #[allow(unreachable_patterns)]\n            _ => None\n        }\n    }\n\n     fn update_node_type(&self, _new_schema: &",
            "<NK, EK>, node_type: <Self::N as Typed>::Type) -> Option<<<",
            "<NK, EK> as SchemaExt<NK, EK>>::N as Typed>::Type> {\n        match node_type {\n",
        ],
        full,
    ) + concat_map(
        c,
        migrate_arm(true, nc, update_node_type_kept(), seq!["            NodeType::", " => None,\n"], new_path, ""@),
    ) + fill_holes(
        seq![
            "            #[allow(unreachable_patterns)]\n            _ => None\n        }\n    }\n}\n\nimpl<NK, EK> Migration<NK, EK, ",
            "<NK, EK>> for ",
            "<NK, EK>\nwhere\n    NK: Key,\n    EK: Key\n{\n    type Handler = ",
            ";\n}\n\nimpl<NK, EK> DirectMigration<NK, EK, ",
            "<NK, EK>> for ",
            "<NK, EK>\nwhere\n    NK: Key,\n    EK: Key\n{\n    fn migrate(g: TypedGraph<NK, EK, Self>) -> GenericTypedResult<TypedGraph<NK, EK, ",
            "<NK, EK>>, NK, EK> {\n        <Self as Migration<NK, EK, _>>::migrate(g, &",
            ", Default::default())\n    }\n}\n",
        ],
        seq![full, old_name, h, full, old_name, full, h],
    )
}

fn write_migrate_arms(
    s: &mut String,
    content: &Vec<SchemaStm>,
    new_content: &Vec<SchemaStm>,
    node: bool,
    kept: &[&str],
    dropped: &[&str],
    new_path: &str,
    fourth: &str,
)
    requires
        kept@.len() == 5,
    ensures
        final(s)@ == old(s)@ + concat_map(
            content@,
            migrate_arm(node, new_content@, kept@, dropped@, new_path@, fourth@),
        ),
{
    let ghost f = migrate_arm(node, new_content@, kept@, dropped@, new_path@, fourth@);
    let n = content.len();
    let mut i: usize = 0;
    while i < n
        invariant
            n == content@.len(),
            i <= n,
            kept@.len() == 5,
            f == migrate_arm(node, new_content@, kept@, dropped@, new_path@, fourth@),
            s@ == old(s)@ + concat_map(content@.subrange(0, i as int), f),
        decreases n - i,
    {
        proof {
            lemma_concat_map_step(content@, i as int, f);
        }
        let ghost before = s@;
        let st = &content[i];
        let wanted = match st {
            SchemaStm::Node(_) => node,
            SchemaStm::Edge(_) => !node,
            _ => false,
        };
        if wanted {
            let name = stm_name_of(st).as_str();
            if declares_name(new_content, name) {
                let holes = [name, new_path, name, fourth];
                assert(str_texts(holes@) =~= seq![name@, new_path@, name@, fourth@]);
                write_holes(s, kept, &holes);
            } else {
                write_fill(s, dropped, name);
            }
        }
        assert(s@ =~= before + f(content@[i as int]));
        i = i + 1;
    }
    proof {
        lemma_concat_map_all(content@, f);
    }
}

/// The migration from `old_schema` to `new_schema`, which lives at `new_path`, handled by
/// `handler` or by the default handler.
pub fn write_migrate_schema(
    old_schema: &Schema,
    new_schema: &Schema,
    handler: &Option<String>,
    new_path: &String,
) -> (r: String)
    ensures
        r@ == migrate_schema_text(
            *old_schema,
            *new_schema,
            match handler {
                Some(x) => Some(x@),
                None => None,
            },
            new_path@,
        ),
{
    let old_name = replace_dots(old_schema.version.as_str());
    let new_name = replace_dots(new_schema.version.as_str());
    let mut full = new_path.clone();
    full.append("::");
    full.append(new_name.as_str());
    let h = match handler {
        Some(x) => x.clone(),
        None => String::from_str("DefaultMigrationHandler"),
    };
    let f = full.as_str();
    let o = old_name.as_str();
    let np = new_path.as_str();
    let mut s = String::new();
    let head = [
        "impl<NK, EK> MigrateSchema<NK, EK, ",
        "<NK, EK>> for ",
        "<NK, EK>\nwhere\n    NK: Key,\n    EK: Key\n{\n    fn update_node(&self, _new_schema: &",
        "<NK, EK>, node: Self::N) -> SchemaResult<Option<<",
        "<NK, EK> as SchemaExt<NK, EK>>::N>, NK, EK, ",
        "<NK, EK>> {\n        match node {\n",
    ];
    let head_holes = [f, o, f, f, f];
    assert(str_texts(head_holes@) =~= seq![full@, old_name@, full@, full@, full@]);
    write_holes(&mut s, &head, &head_holes);
    let ghost a = s@;
    let node_kept = [
        "            Node::",
        "(e) => Ok(Some(",
        "::Node::",
        "(e.try_into().map_err(|e: UpgradeError| SchemaError::<NK, EK, ",
        "<NK, EK>>::UpgradeError(e))?))),\n",
    ];
    assert(node_kept@ =~= update_node_kept());
    let node_dropped = ["            Node::", "(_) => Ok(None),\n"];
    write_migrate_arms(&mut s, &old_schema.content, &new_schema.content, true, &node_kept, &node_dropped, np, f);
    let ghost b = s@;
    write_fill(
        &mut s,
        &[
            "           #[allow(unreachable_patterns)]\n           _ => Ok(None)\n        }\n    }\n\n    fn update_edge(&self, _new_schema: &",
            "<NK, EK>, edge: Self::E) -> SchemaResult<Option<<",
            "<NK, EK> as SchemaExt<NK, EK>>::E>, NK, EK, ",
            "<NK, EK>> {\n        match edge {\n",
        ],
        f,
    );
    let edge_kept = [
        "            Edge::",
        "(e) => Ok(Some(",
        "::Edge::",
        "(e.try_into().map_err(|e: UpgradeError| SchemaError::<NK, EK, ",
        "<NK, EK>>::UpgradeError(e))?))),\n",
    ];
    assert(edge_kept@ =~= update_edge_kept());
    let edge_dropped = ["            Edge::", "(_) => Ok(None),\n"];
    write_migrate_arms(&mut s, &old_schema.content, &new_schema.content, false, &edge_kept, &edge_dropped, np, f);
    let ghost c = s@;
    write_fill(
        &mut s,
        &[
            "            #[allow(unreachable_patterns)]\n            _ => Ok(None)\n        }\n    }\n\n     fn update_edge_type(&self, _new_schema: &",
            "<NK, EK>, edge_type: <Self::E as Typed>::Type) -> Option<<<",
            "<NK, EK> as SchemaExt<NK, EK>>::E as Typed>::Type> {\n        match edge_type {\n",
        ],
        f,
    );
    let et_kept = ["            EdgeType::", " => Some(", "::EdgeType::", "),\n", ""];
    assert(et_kept@ =~= update_edge_type_kept());
    let et_dropped = ["            EdgeType::", " => None,\n"];
    write_migrate_arms(&mut s, &old_schema.content, &new_schema.content, false, &et_kept, &et_dropped, np, "");
    let ghost d = s@;
    write_fill(
        &mut s,
        &[
            "            #[allow(unreachable_patterns)]\n            _ => None\n        }\n    }\n\n     fn update_node_type(&self, _new_schema: &",
            "<NK, EK>, node_type: <Self::N as Typed>::Type) -> Option<<<",
            "<NK, EK> as SchemaExt<NK, EK>>::N as Typed>::Type> {\n        match node_type {\n",
        ],
        f,
    );
    let nt_kept = ["            NodeType::", " => Some(", "::NodeType::", "),\n", ""];
    assert(nt_kept@ =~= update_node_type_kept());
    let nt_dropped = ["            NodeType::", " => None,\n"];
    write_migrate_arms(&mut s, &old_schema.content, &new_schema.content, true, &nt_kept, &nt_dropped, np, "");
    let ghost e = s@;
    let tail = [
        "            #[allow(unreachable_patterns)]\n            _ => None\n        }\n    }\n}\n\nimpl<NK, EK> Migration<NK, EK, ",
        "<NK, EK>> for ",
        "<NK, EK>\nwhere\n    NK: Key,\n    EK: Key\n{\n    type Handler = ",
        ";\n}\n\nimpl<NK, EK> DirectMigration<NK, EK, ",
        "<NK, EK>> for ",
        "<NK, EK>\nwhere\n    NK: Key,\n    EK: Key\n{\n    fn migrate(g: TypedGraph<NK, EK, Self>) -> GenericTypedResult<TypedGraph<NK, EK, ",
        "<NK, EK>>, NK, EK> {\n        <Self as Migration<NK, EK, _>>::migrate(g, &",
        ", Default::default())\n    }\n}\n",
    ];
    let tail_holes = [f, o, h.as_str(), f, o, f, h.as_str()];
    assert(str_texts(tail_holes@) =~= seq![full@, old_name@, h@, full@, old_name@, full@, h@]);
    write_holes(&mut s, &tail, &tail_holes);
    assert(s@ =~= migrate_schema_text(
        *old_schema,
        *new_schema,
        match handler {
            Some(x) => Some(x@),
            None => None,
        },
        new_path@,
    ));
    s
}

} // verus!
