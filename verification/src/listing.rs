use vstd::prelude::*;
use vstd::string::*;

use crate::direction::Direction;
use crate::project::{leads_nowhere, triples_view, Project};
use crate::rust_migrations::{entry_pairs, parents_in, parents_of, steps_of};
use crate::text::texts;

verus! {

/// `n` bars, one for each level between a schema and its listed ancestor.
pub open spec fn bars_text(n: nat) -> Seq<char>
    decreases n,
{
    if n == 0 {
        Seq::empty()
    } else {
        bars_text((n - 1) as nat) + "│  "@
    }
}

/// The guide drawn before a schema at `depth` in the listing of versions: a bar for each
/// level above its parent, then a branch.
pub open spec fn guide_text(depth: nat) -> Seq<char> {
    if depth == 0 {
        Seq::empty()
    } else {
        bars_text((depth - 1) as nat) + "├──"@
    }
}

/// The line of a schema at `depth`.
pub open spec fn list_line(name: Seq<char>, depth: nat) -> Seq<char> {
    guide_text(depth) + name
}

/// The lines of `v` at `depth` and, below it, of the schemas it was made from, the last
/// one first; `None` when a walk from `v` takes more than `budget` steps.
pub open spec fn tree_lines(st: Seq<(Seq<char>, Seq<char>)>, v: Seq<char>, depth: nat, budget: nat) -> Option<
    Seq<Seq<char>>,
>
    decreases budget, 0nat,
{
    let cs = parents_in(st, v);
    if cs.len() == 0 {
        Some(seq![list_line(v, depth)])
    } else if budget == 0 {
        None
    } else {
        match children_lines(st, cs, depth + 1, (budget - 1) as nat) {
            Some(rest) => Some(seq![list_line(v, depth)] + rest),
            None => None,
        }
    }
}

/// The lines of each of `cs` at `depth`, the last one first.
pub open spec fn children_lines(st: Seq<(Seq<char>, Seq<char>)>, cs: Seq<Seq<char>>, depth: nat, budget: nat) -> Option<
    Seq<Seq<char>>,
>
    decreases budget, cs.len(),
{
    if cs.len() == 0 {
        Some(Seq::empty())
    } else {
        match tree_lines(st, cs.last(), depth, budget) {
            Some(a) => match children_lines(st, cs.drop_last(), depth, budget) {
                Some(b) => Some(a + b),
                None => None,
            },
            None => None,
        }
    }
}

/// The listing of the versions of a project: from each head, the last one first, the
/// schemas it was made from, as a tree. `None` when a walk takes more steps than the tree
/// has, which happens only when it goes round a cycle.
pub open spec fn version_lines(heads: Seq<Seq<char>>, st: Seq<(Seq<char>, Seq<char>)>) -> Option<Seq<Seq<char>>> {
    children_lines(st, heads, 0, st.len())
}

pub open spec fn opt_texts(r: Option<Vec<String>>) -> Option<Seq<Seq<char>>> {
    match r {
        Some(v) => Some(texts(v@)),
        None => None,
    }
}

fn guide(depth: usize) -> (r: String)
    ensures
        r@ == guide_text(depth as nat),
{
    let mut r = String::new();
    if depth == 0 {
        return r;
    }
    let mut i: usize = 0;
    while i < depth - 1
        invariant
            i <= depth - 1,
            r@ == bars_text(i as nat),
        decreases depth - 1 - i,
    {
        r.append("│  ");
        i = i + 1;
    }
    r.append("├──");
    r
}

fn line(name: &str, depth: usize) -> (r: String)
    ensures
        r@ == list_line(name@, depth as nat),
{
    let mut r = guide(depth);
    r.append(name);
    r
}

fn append_lines(out: &mut Vec<String>, more: Vec<String>)
    ensures
        texts(final(out)@) == texts(old(out)@) + texts(more@),
{
    let mut more = more;
    let ghost a = out@;
    let ghost b = more@;
    out.append(&mut more);
    assert(texts(a + b) =~= texts(a) + texts(b));
}

fn tree_lines_of(es: &Vec<(String, String, u64)>, v: &str, depth: usize, budget: usize) -> (r: Option<Vec<String>>)
    requires
        depth + budget <= es@.len(),
    ensures
        opt_texts(r) == tree_lines(steps_of(es@), v@, depth as nat, budget as nat),
    decreases budget, 0nat,
{
    let cs = parents_of(es, v);
    let mut out: Vec<String> = Vec::new();
    out.push(line(v, depth));
    assert(texts(out@) =~= seq![list_line(v@, depth as nat)]);
    if cs.len() == 0 {
        return Some(out);
    }
    if budget == 0 {
        return None;
    }
    assert(es@.len() == es.len());
    match children_lines_of(es, &cs, cs.len(), depth + 1, budget - 1) {
        Some(rest) => {
            assert(cs@.take(cs@.len() as int) =~= cs@);
            append_lines(&mut out, rest);
            Some(out)
        },
        None => {
            assert(cs@.take(cs@.len() as int) =~= cs@);
            None
        },
    }
}

fn children_lines_of(es: &Vec<(String, String, u64)>, cs: &Vec<String>, k: usize, depth: usize, budget: usize) -> (r:
    Option<Vec<String>>)
    requires
        k <= cs@.len(),
        depth + budget <= es@.len(),
    ensures
        opt_texts(r) == children_lines(steps_of(es@), texts(cs@.take(k as int)), depth as nat, budget as nat),
    decreases budget, k,
{
    let ghost ts = texts(cs@.take(k as int));
    if k == 0 {
        let r: Vec<String> = Vec::new();
        assert(texts(r@) =~= Seq::<Seq<char>>::empty());
        return Some(r);
    }
    proof {
        assert(ts.drop_last() =~= texts(cs@.take(k - 1)));
        assert(ts.last() == cs@[k - 1]@);
    }
    match tree_lines_of(es, cs[k - 1].as_str(), depth, budget) {
        Some(a) => match children_lines_of(es, cs, k - 1, depth, budget) {
            Some(b) => {
                let mut a = a;
                append_lines(&mut a, b);
                Some(a)
            },
            None => None,
        },
        None => None,
    }
}

/// The listing of the versions of a project, given its heads and the entries of its
/// version tree that lead backwards, as (newer, older, changeset id). `None` when a walk
/// goes round a cycle, where the listing would never end.
pub fn version_listing(heads: &Vec<String>, backward: &Vec<(String, String, u64)>) -> (r: Option<Vec<String>>)
    ensures
        opt_texts(r) == version_lines(texts(heads@), steps_of(backward@)),
{
    let r = children_lines_of(backward, heads, heads.len(), 0, backward.len());
    assert(heads@.take(heads@.len() as int) =~= heads@);
    r
}

/// The heads of a project, in the order its schemas were added.
pub open spec fn head_order(p: Project) -> Seq<Seq<char>> {
    p.schema_order().filter(|k: Seq<char>| leads_nowhere(p.tree(), k, Direction::Forward))
}

/// The listing of the versions of a project: from each head, the schemas it was made from.
pub open spec fn project_listing(p: Project) -> Option<Seq<Seq<char>>> {
    version_lines(head_order(p), entry_pairs(p.version_entries(Direction::Backwards)))
}

/// The lines listing the versions of a project as a tree below each head; `None` when the
/// changesets form a cycle that a walk from a head goes round, where the listing would
/// never end.
pub fn list_versions(project: &Project) -> (r: Option<Vec<String>>)
    ensures
        opt_texts(r) == project_listing(*project),
{
    let heads = project.find_heads();
    let backward = project.iter_version(Some(Direction::Backwards));
    assert(steps_of(backward@) =~= entry_pairs(triples_view(backward@)));
    version_listing(&heads, &backward)
}


proof fn lemma_bars_prepend(n: nat)
    ensures
        bars_text(n + 1) == "│  "@ + bars_text(n),
        bars_text(n).len() == 3 * n,
    decreases n,
{
    reveal_strlit("│  ");
    if n > 0 {
        lemma_bars_prepend((n - 1) as nat);
        assert(bars_text(n + 1) =~= "│  "@ + bars_text(n));
    }
}

/// The guide of a line one level deeper is that of the shallower line with one more bar in
/// front: a line at depth `d > 0` shows `d - 1` bars and then a branch, three characters
/// each; the first level shows the branch alone.
pub proof fn law_guide_depth(d: nat)
    ensures
        guide_text(1) == "├──"@,
        d > 0 ==> guide_text(d).len() == 3 * d,
        d > 0 ==> guide_text(d + 1) == "│  "@ + guide_text(d),
{
    reveal_strlit("├──");
    reveal_strlit("│  ");
    assert(guide_text(1) =~= "├──"@);
    if d > 0 {
        lemma_bars_prepend((d - 1) as nat);
        assert(guide_text(d + 1) =~= "│  "@ + guide_text(d));
    }
}
} // verus!
