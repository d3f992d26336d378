use vstd::prelude::*;
use vstd::string::*;

use crate::direction::Direction;
use crate::generated_code::{spec_add_content, GeneratedCode};
use crate::paths::{join_path, spec_join_path};
use crate::project::{str_equal, triples_view, Project};
use crate::rust_schema::schema_name_text;
use crate::text::{concat_map, replace_dots, snake_text, texts, to_snake_case};

verus! {

/// The steps of the version tree from a schema to one of its parents, as (child, parent).
pub open spec fn steps_of(es: Seq<(String, String, u64)>) -> Seq<(Seq<char>, Seq<char>)> {
    es.map_values(|e: (String, String, u64)| (e.0@, e.1@))
}

/// The (from, to) pairs of version tree entries.
pub open spec fn entry_pairs(t: Seq<(Seq<char>, Seq<char>, u64)>) -> Seq<(Seq<char>, Seq<char>)> {
    t.map_values(|e: (Seq<char>, Seq<char>, u64)| (e.0, e.1))
}

/// The parents of `v`, in the order of the steps.
pub open spec fn parents_in(st: Seq<(Seq<char>, Seq<char>)>, v: Seq<char>) -> Seq<Seq<char>>
    decreases st.len(),
{
    if st.len() == 0 {
        Seq::empty()
    } else {
        parents_in(st.drop_last(), v) + if st.last().0 == v {
            seq![st.last().1]
        } else {
            Seq::empty()
        }
    }
}

/// What `parents_in` lists are the targets of the steps from `v`, each step once.
pub proof fn lemma_parents_in_members(st: Seq<(Seq<char>, Seq<char>)>, v: Seq<char>)
    ensures
        forall|k: int|
            0 <= k < parents_in(st, v).len() ==> exists|j: int|
                0 <= j < st.len() && #[trigger] st[j] == (v, #[trigger] parents_in(st, v)[k]),
        forall|j: int|
            0 <= j < st.len() && #[trigger] st[j].0 == v ==> exists|k: int|
                0 <= k < parents_in(st, v).len() && parents_in(st, v)[k] == st[j].1,
        (forall|a: int, b: int| 0 <= a < b < st.len() ==> st[a] != st[b]) ==> forall|a: int, b: int|
            0 <= a < b < parents_in(st, v).len() ==> parents_in(st, v)[a] != parents_in(st, v)[b],
    decreases st.len(),
{
    if st.len() > 0 {
        let init = st.drop_last();
        lemma_parents_in_members(init, v);
        let pi = parents_in(init, v);
        let p = parents_in(st, v);
        assert forall|k: int| 0 <= k < p.len() implies exists|j: int| 0 <= j < st.len() && #[trigger] st[j] == (v, #[trigger] p[k]) by {
            if k < pi.len() {
                assert(p[k] == pi[k]);
                let j = choose|j: int| 0 <= j < init.len() && #[trigger] init[j] == (v, pi[k]);
                assert(st[j] == init[j]);
            } else {
                assert(st[st.len() - 1] == (v, p[k]));
            }
        }
        assert forall|j: int| 0 <= j < st.len() && #[trigger] st[j].0 == v implies exists|k: int|
            0 <= k < p.len() && p[k] == st[j].1 by {
            if j < init.len() {
                assert(init[j] == st[j]);
                let k = choose|k: int| 0 <= k < pi.len() && pi[k] == init[j].1;
                assert(p[k] == pi[k]);
            } else {
                assert(p[p.len() - 1] == st.last().1);
            }
        }
        if forall|a: int, b: int| 0 <= a < b < st.len() ==> st[a] != st[b] {
            assert forall|a: int, b: int| 0 <= a < b < init.len() implies init[a] != init[b] by {
                assert(init[a] == st[a] && init[b] == st[b]);
            }
            assert forall|a: int, b: int| 0 <= a < b < p.len() implies p[a] != p[b] by {
                if b >= pi.len() {
                    assert(p[b] == st.last().1);
                    assert(p[a] == pi[a]);
                    let j = choose|j: int| 0 <= j < init.len() && #[trigger] init[j] == (v, pi[a]);
                    assert(st[j] == init[j]);
                    assert(st[j] != st[st.len() - 1]);
                } else {
                    assert(p[a] == pi[a] && p[b] == pi[b]);
                }
            }
        }
    }
}

/// The schemas that have a parent, each once, in the order first met.
pub open spec fn children_in(st: Seq<(Seq<char>, Seq<char>)>) -> Seq<Seq<char>>
    decreases st.len(),
{
    if st.len() == 0 {
        Seq::empty()
    } else {
        let prev = children_in(st.drop_last());
        if prev.contains(st.last().0) {
            prev
        } else {
            prev.push(st.last().0)
        }
    }
}

/// The walks from child to parent that extend `path` by at most `budget` steps, depth
/// first, each walk of at least three schemas listed before its extensions.
pub open spec fn walks_ext(st: Seq<(Seq<char>, Seq<char>)>, path: Seq<Seq<char>>, budget: nat) -> Seq<Seq<Seq<char>>>
    decreases budget, 0nat,
{
    (if path.len() > 2 {
        seq![path]
    } else {
        Seq::empty()
    }) + if budget == 0 || path.len() == 0 {
        Seq::empty()
    } else {
        walks_through(st, path, parents_in(st, path.last()), (budget - 1) as nat)
    }
}

/// The walks extending `path` through each of the schemas `ps` in turn.
pub open spec fn walks_through(
    st: Seq<(Seq<char>, Seq<char>)>,
    path: Seq<Seq<char>>,
    ps: Seq<Seq<char>>,
    budget: nat,
) -> Seq<Seq<Seq<char>>>
    decreases budget, ps.len(),
{
    if ps.len() == 0 {
        Seq::empty()
    } else {
        walks_through(st, path, ps.drop_last(), budget) + walks_ext(st, path.push(ps.last()), budget)
    }
}

/// The walks from each schema that has a parent, in the order the schemas are first met.
pub open spec fn walks_from_all(st: Seq<(Seq<char>, Seq<char>)>, starts: Seq<Seq<char>>, budget: nat) -> Seq<
    Seq<Seq<char>>,
>
    decreases starts.len(),
{
    if starts.len() == 0 {
        Seq::empty()
    } else {
        walks_from_all(st, starts.drop_last(), budget) + walks_ext(st, seq![starts.last()], budget)
    }
}

/// All walks of the version tree of at least three schemas, going from a schema to its
/// parents, of at most as many steps as the tree has.
pub open spec fn all_walks(st: Seq<(Seq<char>, Seq<char>)>) -> Seq<Seq<Seq<char>>> {
    walks_from_all(st, children_in(st), st.len())
}

/// The module and type of a schema, as a path from a sibling schema module.
pub open spec fn sibling_type(v: Seq<char>) -> Seq<char> {
    "super::super::"@ + snake_text(schema_name_text(v)) + "::"@ + schema_name_text(v)
}

/// A direct migration from the oldest schema of a walk to the newest, through the others.
pub open spec fn migration_text(walk: Seq<Seq<char>>) -> Seq<char> {
    let newest = walk[0];
    let oldest = walk.last();
    let between = walk.subrange(1, walk.len() - 1).reverse();
    "\nimpl<NK, EK> DirectMigration<NK, EK, "@ + sibling_type(newest) + "<NK, EK>> for "@ + schema_name_text(oldest)
        + "<NK, EK>\nwhere\n    NK: Key,\n    EK: Key,\n{\n    fn migrate(\n        g: TypedGraph<NK, EK, Self>\n    ) -> GenericTypedResult<TypedGraph<NK, EK, "@
        + sibling_type(newest) + "<NK, EK>>, NK, EK> {\n        g"@ + concat_map(
        between,
        |v: Seq<char>| ".migrate_direct::<"@ + sibling_type(v) + "<_, _>>()?\n           "@,
    ) + ".migrate_direct()\n    }\n}\n"@
}

/// The files after the migration of each walk was added to the schema.rs of its oldest schema.
pub open spec fn migration_files(
    files: Map<Seq<char>, Option<Seq<char>>>,
    walks: Seq<Seq<Seq<char>>>,
    folder: Seq<char>,
) -> Map<Seq<char>, Option<Seq<char>>>
    decreases walks.len(),
{
    if walks.len() == 0 {
        files
    } else {
        let w = walks.last();
        spec_add_content(
            migration_files(files, walks.drop_last(), folder),
            spec_join_path(spec_join_path(folder, snake_text(schema_name_text(w.last()))), "schema.rs"@),
            migration_text(w),
        )
    }
}

/// The texts of a list of walks.
pub open spec fn walk_texts(ws: Seq<Vec<String>>) -> Seq<Seq<Seq<char>>> {
    ws.map_values(|w: Vec<String>| texts(w@))
}

fn copy_path(v: &Vec<String>) -> (r: Vec<String>)
    ensures
        texts(r@) == texts(v@),
{
    let mut r: Vec<String> = Vec::new();
    let n = v.len();
    let mut i: usize = 0;
    while i < n
        invariant
            n == v@.len(),
            i <= n,
            texts(r@) == texts(v@.take(i as int)),
        decreases n - i,
    {
        let ghost before = texts(r@);
        r.push(v[i].clone());
        assert(texts(r@) =~= before.push(v@[i as int]@));
        assert(texts(v@.take(i + 1)) =~= texts(v@.take(i as int)).push(v@[i as int]@));
        i = i + 1;
    }
    assert(v@.take(n as int) =~= v@);
    r
}

pub(crate) fn parents_of(es: &Vec<(String, String, u64)>, v: &str) -> (r: Vec<String>)
    ensures
        texts(r@) == parents_in(steps_of(es@), v@),
{
    let mut r: Vec<String> = Vec::new();
    let n = es.len();
    let mut i: usize = 0;
    while i < n
        invariant
            n == es@.len(),
            i <= n,
            texts(r@) == parents_in(steps_of(es@.take(i as int)), v@),
        decreases n - i,
    {
        assert(steps_of(es@.take(i + 1)).drop_last() =~= steps_of(es@.take(i as int)));
        let ghost before = texts(r@);
        if str_equal(es[i].0.as_str(), v) {
            r.push(es[i].1.clone());
            assert(texts(r@) =~= before.push(es@[i as int].1@));
        }
        i = i + 1;
    }
    assert(es@.take(n as int) =~= es@);
    r
}

fn push_walks(out: &mut Vec<Vec<String>>, more: Vec<Vec<String>>)
    ensures
        walk_texts(final(out)@) == walk_texts(old(out)@) + walk_texts(more@),
{
    let mut more = more;
    let ghost a = out@;
    let ghost b = more@;
    out.append(&mut more);
    assert(walk_texts(a + b) =~= walk_texts(a) + walk_texts(b));
}

fn walks_ext_of(es: &Vec<(String, String, u64)>, path: &Vec<String>, budget: usize) -> (r: Vec<Vec<String>>)
    ensures
        walk_texts(r@) == walks_ext(steps_of(es@), texts(path@), budget as nat),
    decreases budget, 0nat,
{
    let mut r: Vec<Vec<String>> = Vec::new();
    if path.len() > 2 {
        r.push(copy_path(path));
        assert(walk_texts(r@) =~= seq![texts(path@)]);
    } else {
        assert(walk_texts(r@) =~= Seq::<Seq<Seq<char>>>::empty());
    }
    let ghost first = walk_texts(r@);
    if budget == 0 || path.len() == 0 {
        assert(walk_texts(r@) =~= first + Seq::<Seq<Seq<char>>>::empty());
        return r;
    }
    let ps = parents_of(es, path[path.len() - 1].as_str());
    assert(texts(path@).last() == path@[path@.len() - 1]@);
    let more = walks_through_of(es, path, &ps, ps.len(), budget - 1);
    push_walks(&mut r, more);
    assert(ps@.take(ps@.len() as int) =~= ps@);
    r
}

fn walks_through_of(
    es: &Vec<(String, String, u64)>,
    path: &Vec<String>,
    ps: &Vec<String>,
    k: usize,
    budget: usize,
) -> (r: Vec<Vec<String>>)
    requires
        k <= ps@.len(),
    ensures
        walk_texts(r@) == walks_through(steps_of(es@), texts(path@), texts(ps@.take(k as int)), budget as nat),
    decreases budget, k,
{
    if k == 0 {
        let r: Vec<Vec<String>> = Vec::new();
        assert(walk_texts(r@) =~= Seq::<Seq<Seq<char>>>::empty());
        return r;
    }
    let mut r = walks_through_of(es, path, ps, k - 1, budget);
    let mut longer = copy_path(path);
    longer.push(ps[k - 1].clone());
    proof {
        assert(texts(ps@.take(k as int)).drop_last() =~= texts(ps@.take(k - 1)));
        assert(texts(ps@.take(k as int)).last() == ps@[k - 1]@);
        assert(texts(longer@) =~= texts(path@).push(ps@[k - 1]@));
    }
    let more = walks_ext_of(es, &longer, budget);
    push_walks(&mut r, more);
    r
}

fn children_of(es: &Vec<(String, String, u64)>) -> (r: Vec<String>)
    ensures
        texts(r@) == children_in(steps_of(es@)),
{
    let mut r: Vec<String> = Vec::new();
    let n = es.len();
    let mut i: usize = 0;
    while i < n
        invariant
            n == es@.len(),
            i <= n,
            texts(r@) == children_in(steps_of(es@.take(i as int))),
        decreases n - i,
    {
        assert(steps_of(es@.take(i + 1)).drop_last() =~= steps_of(es@.take(i as int)));
        let mut found = false;
        let m = r.len();
        let mut j: usize = 0;
        while j < m
            invariant
                n == es@.len(),
                i < n,
                m == r@.len(),
                j <= m,
                !found ==> forall|a: int| 0 <= a < j ==> texts(r@)[a] != es@[i as int].0@,
                found ==> texts(r@).contains(es@[i as int].0@),
            decreases m - j,
        {
            if str_equal(r[j].as_str(), es[i].0.as_str()) {
                assert(texts(r@)[j as int] == es@[i as int].0@);
                found = true;
            }
            j = j + 1;
        }
        if !found {
            let ghost before = texts(r@);
            r.push(es[i].0.clone());
            assert(texts(r@) =~= before.push(es@[i as int].0@));
        }
        i = i + 1;
    }
    assert(es@.take(n as int) =~= es@);
    r
}

/// The walks of the version tree given by its steps from child to parent.
pub fn walks_of(es: &Vec<(String, String, u64)>) -> (r: Vec<Vec<String>>)
    ensures
        walk_texts(r@) == all_walks(steps_of(es@)),
{
    let starts = children_of(es);
    let ghost st = steps_of(es@);
    let n = starts.len();
    let mut r: Vec<Vec<String>> = Vec::new();
    let mut i: usize = 0;
    while i < n
        invariant
            n == starts@.len(),
            i <= n,
            st == steps_of(es@),
            walk_texts(r@) == walks_from_all(st, texts(starts@).take(i as int), es@.len() as nat),
        decreases n - i,
    {
        let mut path: Vec<String> = Vec::new();
        path.push(starts[i].clone());
        proof {
            assert(texts(starts@).take(i + 1).drop_last() =~= texts(starts@).take(i as int));
            assert(texts(path@) =~= seq![texts(starts@).take(i + 1).last()]);
        }
        let more = walks_ext_of(es, &path, es.len());
        push_walks(&mut r, more);
        i = i + 1;
    }
    assert(texts(starts@).take(n as int) =~= texts(starts@));
    assert(st.len() == es@.len());
    r
}

/// The path of a schema from a sibling schema module, `super::super::<mod>::<Name>`.
fn sibling_type_of(v: &str) -> (r: String)
    ensures
        r@ == sibling_type(v@),
{
    let name = replace_dots(v);
    let mut r = String::from_str("super::super::");
    r.append(to_snake_case(name.as_str()).as_str());
    r.append("::");
    r.append(name.as_str());
    r
}

/// The direct migration text of one walk of at least two schemas.
pub fn migration_of(walk: &Vec<String>) -> (r: String)
    requires
        walk@.len() >= 2,
    ensures
        r@ == migration_text(texts(walk@)),
{
    let ghost w = texts(walk@);
    let n = walk.len();
    let newest = sibling_type_of(walk[0].as_str());
    let oldest = replace_dots(walk[n - 1].as_str());
    let mut r = String::from_str("\nimpl<NK, EK> DirectMigration<NK, EK, ");
    r.append(newest.as_str());
    r.append("<NK, EK>> for ");
    r.append(oldest.as_str());
    r.append(
        "<NK, EK>\nwhere\n    NK: Key,\n    EK: Key,\n{\n    fn migrate(\n        g: TypedGraph<NK, EK, Self>\n    ) -> GenericTypedResult<TypedGraph<NK, EK, ",
    );
    r.append(newest.as_str());
    r.append("<NK, EK>>, NK, EK> {\n        g");
    let ghost head = r@;
    let ghost between = w.subrange(1, w.len() - 1).reverse();
    let ghost f = |v: Seq<char>| ".migrate_direct::<"@ + sibling_type(v) + "<_, _>>()?\n           "@;
    let mut k: usize = n - 1;
    let mut i: usize = 0;
    while k > 1
        invariant
            n == walk@.len(),
            w == texts(walk@),
            n >= 2,
            1 <= k <= n - 1,
            i == n - 1 - k,
            between == w.subrange(1, w.len() - 1).reverse(),
            f == (|v: Seq<char>| ".migrate_direct::<"@ + sibling_type(v) + "<_, _>>()?\n           "@),
            r@ == head + concat_map(between.subrange(0, i as int), f),
        decreases k,
    {
        proof {
            lemma_step(between, i as int, f);
            assert(between[i as int] == w[k - 1]);
        }
        r.append(".migrate_direct::<");
        r.append(sibling_type_of(walk[k - 1].as_str()).as_str());
        r.append("<_, _>>()?\n           ");
        k = k - 1;
        i = i + 1;
    }
    proof {
        assert(between.subrange(0, i as int) =~= between);
    }
    r.append(".migrate_direct()\n    }\n}\n");
    r
}

proof fn lemma_step(s: Seq<Seq<char>>, i: int, f: spec_fn(Seq<char>) -> Seq<char>)
    requires
        0 <= i < s.len(),
    ensures
        concat_map(s.subrange(0, i + 1), f) == concat_map(s.subrange(0, i), f) + f(s[i]),
{
    assert(s.subrange(0, i + 1).drop_last() =~= s.subrange(0, i));
}

/// Every walk listed is made of at least three schemas.
proof fn lemma_walks_long(st: Seq<(Seq<char>, Seq<char>)>, path: Seq<Seq<char>>, budget: nat)
    ensures
        forall|a: int|
            0 <= a < walks_ext(st, path, budget).len() ==> (#[trigger] walks_ext(st, path, budget)[a]).len() > 2,
    decreases budget, 0nat,
{
    let w = walks_ext(st, path, budget);
    let first: Seq<Seq<Seq<char>>> = if path.len() > 2 {
        seq![path]
    } else {
        Seq::empty()
    };
    let rest = if budget == 0 || path.len() == 0 {
        Seq::empty()
    } else {
        walks_through(st, path, parents_in(st, path.last()), (budget - 1) as nat)
    };
    if budget > 0 && path.len() > 0 {
        lemma_through_long(st, path, parents_in(st, path.last()), (budget - 1) as nat);
    }
    assert(w == first + rest);
    assert forall|a: int| 0 <= a < w.len() implies (#[trigger] w[a]).len() > 2 by {
        if a < first.len() {
            assert(w[a] == first[a]);
        } else {
            assert(w[a] == rest[a - first.len()]);
        }
    }
}

proof fn lemma_through_long(st: Seq<(Seq<char>, Seq<char>)>, path: Seq<Seq<char>>, ps: Seq<Seq<char>>, budget: nat)
    ensures
        forall|a: int|
            0 <= a < walks_through(st, path, ps, budget).len() ==> (#[trigger] walks_through(st, path, ps, budget)[a]).len()
                > 2,
    decreases budget, ps.len(),
{
    if ps.len() > 0 {
        lemma_through_long(st, path, ps.drop_last(), budget);
        lemma_walks_long(st, path.push(ps.last()), budget);
        let w = walks_through(st, path, ps, budget);
        let x = walks_through(st, path, ps.drop_last(), budget);
        let y = walks_ext(st, path.push(ps.last()), budget);
        assert(w == x + y);
        assert forall|a: int| 0 <= a < w.len() implies (#[trigger] w[a]).len() > 2 by {
            if a < x.len() {
                assert(w[a] == x[a]);
            } else {
                assert(w[a] == y[a - x.len()]);
            }
        }
    }
}

proof fn lemma_all_long(st: Seq<(Seq<char>, Seq<char>)>, starts: Seq<Seq<char>>, budget: nat)
    ensures
        forall|a: int|
            0 <= a < walks_from_all(st, starts, budget).len() ==> (#[trigger] walks_from_all(st, starts, budget)[a]).len()
                > 2,
    decreases starts.len(),
{
    if starts.len() > 0 {
        lemma_all_long(st, starts.drop_last(), budget);
        lemma_walks_long(st, seq![starts.last()], budget);
        let w = walks_from_all(st, starts, budget);
        let x = walks_from_all(st, starts.drop_last(), budget);
        let y = walks_ext(st, seq![starts.last()], budget);
        assert(w == x + y);
        assert forall|a: int| 0 <= a < w.len() implies (#[trigger] w[a]).len() > 2 by {
            if a < x.len() {
                assert(w[a] == x[a]);
            } else {
                assert(w[a] == y[a - x.len()]);
            }
        }
    }
}

/// Add the direct migrations between the schemas of each walk of the version tree given by
/// its steps from child to parent, each to the schema.rs of the oldest schema of its walk.
pub fn write_transitive_migrations(es: &Vec<(String, String, u64)>, project_folder: &str) -> (r: GeneratedCode)
    ensures
        r@ == migration_files(Map::empty(), all_walks(steps_of(es@)), project_folder@),
{
    let walks = walks_of(es);
    let ghost ws = walk_texts(walks@);
    proof {
        lemma_all_long(steps_of(es@), children_in(steps_of(es@)), steps_of(es@).len());
    }
    let mut code = GeneratedCode::new();
    let n = walks.len();
    let mut i: usize = 0;
    while i < n
        invariant
            n == walks@.len(),
            ws == walk_texts(walks@),
            ws == all_walks(steps_of(es@)),
            i <= n,
            forall|a: int| 0 <= a < n ==> (#[trigger] ws[a]).len() > 2,
            code@ == migration_files(Map::empty(), ws.take(i as int), project_folder@),
        decreases n - i,
    {
        let walk = &walks[i];
        assert(ws[i as int] == texts(walk@));
        let m = walk.len();
        let text = migration_of(walk);
        let oldest = replace_dots(walk[m - 1].as_str());
        let module = to_snake_case(oldest.as_str());
        let folder = join_path(project_folder, module.as_str());
        let path = join_path(folder.as_str(), "schema.rs");
        code.add_content(path, text);
        proof {
            assert(ws.take(i + 1).drop_last() =~= ws.take(i as int));
            assert(ws.take(i + 1).last() == texts(walk@));
            assert(texts(walk@).last() == walk@[m - 1]@);
        }
        i = i + 1;
    }
    assert(ws.take(n as int) =~= ws);
    code
}

impl Project {
    /// The direct migrations of the project: one for each walk of at least three schemas
    /// down its version tree, from the oldest schema of the walk to the newest.
    pub fn transitive_migrations(&self, project_folder: &str) -> (r: GeneratedCode)
        ensures
            r@ == migration_files(
                Map::empty(),
                all_walks(entry_pairs(self.version_entries(Direction::Backwards))),
                project_folder@,
            ),
    {
        let es = self.iter_version(Some(Direction::Backwards));
        assert(steps_of(es@) =~= entry_pairs(triples_view(es@)));
        write_transitive_migrations(&es, project_folder)
    }
}

} // verus!
