use vstd::prelude::*;
use vstd::string::*;

use crate::direction::Direction;
use crate::error::{GenError, GenResult};
use crate::project::{str_equal, triples_view, Project};
use crate::text::texts;

verus! {

/// Version tree entries as (from, to, changeset id).
pub type Entries = Seq<(Seq<char>, Seq<char>, u64)>;

/// The changeset of the first of the entries that leads from `m`.
pub open spec fn first_from(es: Entries, m: Seq<char>) -> Option<u64>
    decreases es.len(),
{
    if es.len() == 0 {
        None
    } else {
        match first_from(es.drop_last(), m) {
            Some(id) => Some(id),
            None => if es.last().0 == m {
                Some(es.last().2)
            } else {
                None
            },
        }
    }
}

/// The projects whose missing schemas can be planned: each entry of the version tree has a
/// reverse, and each entry leading backwards names a known changeset made towards the
/// schema it leads from.
///
/// The walk back from a missing schema takes one of the entries leading backwards from it,
/// and which one it takes is not fixed by the version tree itself (the entries of a schema
/// form a set); so the condition is asked of every entry leading backwards, not only of
/// those one particular walk would take.
pub open spec fn plannable(p: Project) -> bool {
    &&& forall|k: (Seq<char>, Seq<char>)| #[trigger] p.tree().contains_key(k) ==> p.tree().contains_key((k.1, k.0))
    &&& forall|i: int|
        0 <= i < p.version_entries(Direction::Backwards).len() ==> {
            let e = #[trigger] p.version_entries(Direction::Backwards)[i];
            &&& p.changeset_map().contains_key(e.2)
            &&& p.changeset_map()[e.2].new_version@ == e.0
        }
}

/// The schema a changeset was made from.
pub open spec fn parent_of(p: Project, id: u64) -> Seq<char> {
    p.changeset_map()[id].old_version@
}

/// The changesets that build `m` and, before it, its missing ancestors, walking back from
/// `m` until a schema that is there or already planned (`done`); with the names planned
/// after the walk. The error is the schema from which no changeset leads back. `fuel`
/// bounds the walk; a walk never needs more steps than there are entries leading back,
/// as each step leaves from a schema not met before.
pub open spec fn chain_plan(p: Project, m: Seq<char>, done: Set<Seq<char>>, fuel: nat) -> Result<
    (Seq<u64>, Set<Seq<char>>),
    Seq<char>,
>
    decreases fuel,
{
    if done.contains(m) {
        Ok((Seq::empty(), done))
    } else if fuel == 0 {
        Err(m)
    } else {
        match first_from(p.version_entries(Direction::Backwards), m) {
            None => Err(m),
            Some(id) => match chain_plan(p, parent_of(p, id), done.insert(m), (fuel - 1) as nat) {
                Ok((ids, d)) => Ok((seq![id] + ids, d)),
                Err(x) => Err(x),
            },
        }
    }
}

/// The walks from each of the missing schemas `ms`, the last one first.
pub open spec fn plan_all(p: Project, ms: Seq<Seq<char>>, done: Set<Seq<char>>, fuel: nat) -> Result<
    (Seq<u64>, Set<Seq<char>>),
    Seq<char>,
>
    decreases ms.len(),
{
    if ms.len() == 0 {
        Ok((Seq::empty(), done))
    } else {
        match chain_plan(p, ms.last(), done, fuel) {
            Ok((ids, d)) => match plan_all(p, ms.drop_last(), d, fuel) {
                Ok((more, d2)) => Ok((ids + more, d2)),
                Err(x) => Err(x),
            },
            Err(x) => Err(x),
        }
    }
}

/// The schemas that a changeset leads to but that the project does not have, in the order
/// of the version tree.
pub open spec fn missing_targets(p: Project) -> Seq<Seq<char>> {
    p.version_entries(Direction::Forward).map_values(|e: (Seq<char>, Seq<char>, u64)| e.1).filter(
        |n: Seq<char>| !p.schema_map().contains_key(n),
    )
}

/// The changesets to apply, in order, to build the schemas of the project that are missing;
/// or the schema from which no changeset leads back.
pub open spec fn missing_plan(p: Project) -> Result<Seq<u64>, Seq<char>> {
    match plan_all(p, missing_targets(p), p.schema_map().dom(), p.version_entries(Direction::Backwards).len()) {
        Ok((ids, _)) => Ok(ids.reverse()),
        Err(x) => Err(x),
    }
}

fn first_back(backward: &Vec<(String, String, u64)>, m: &str) -> (r: Option<u64>)
    ensures
        r == first_from(triples_view(backward@), m@),
{
    let n = backward.len();
    let mut found: Option<u64> = None;
    let mut i: usize = 0;
    while i < n
        invariant
            n == backward@.len(),
            i <= n,
            found == first_from(triples_view(backward@.take(i as int)), m@),
        decreases n - i,
    {
        assert(triples_view(backward@.take(i + 1)).drop_last() =~= triples_view(backward@.take(i as int)));
        if found.is_none() && str_equal(backward[i].0.as_str(), m) {
            found = Some(backward[i].2);
        }
        i = i + 1;
    }
    assert(backward@.take(n as int) =~= backward@);
    found
}

fn contains_name(v: &Vec<String>, name: &str) -> (r: bool)
    ensures
        r == texts(v@).to_set().contains(name@),
{
    let n = v.len();
    let mut i: usize = 0;
    while i < n
        invariant
            n == v@.len(),
            i <= n,
            forall|j: int| 0 <= j < i ==> v@[j]@ != name@,
        decreases n - i,
    {
        if str_equal(v[i].as_str(), name) {
            assert(texts(v@)[i as int] == name@);
            assert(texts(v@).contains(name@));
            return true;
        }
        i = i + 1;
    }
    proof {
        if texts(v@).to_set().contains(name@) {
            let j = choose|j: int| 0 <= j < texts(v@).len() && texts(v@)[j] == name@;
            assert(v@[j]@ == name@);
        }
    }
    false
}

fn push_name(v: &mut Vec<String>, name: &String)
    ensures
        texts(final(v)@).to_set() == texts(old(v)@).to_set().insert(name@),
{
    let ghost before = texts(v@);
    v.push(name.clone());
    assert(texts(v@) =~= before.push(name@));
    proof {
        before.lemma_push_to_set_commute(name@);
    }
}

fn chain_of(
    p: &Project,
    backward: &Vec<(String, String, u64)>,
    m: &String,
    done: &mut Vec<String>,
    fuel: usize,
    out: &mut Vec<u64>,
) -> (r: Result<(), String>)
    requires
        plannable(*p),
        triples_view(backward@) == p.version_entries(Direction::Backwards),
    ensures
        match chain_plan(*p, m@, texts(old(done)@).to_set(), fuel as nat) {
            Ok((ids, d)) => r is Ok && final(out)@ == old(out)@ + ids && texts(final(done)@).to_set() == d,
            Err(x) => r matches Err(y) && y@ == x,
        },
    decreases fuel,
{
    if contains_name(done, m.as_str()) {
        assert(out@ =~= out@ + Seq::<u64>::empty());
        return Ok(());
    }
    if fuel == 0 {
        return Err(m.clone());
    }
    match first_back(backward, m.as_str()) {
        None => Err(m.clone()),
        Some(id) => {
            let ghost es = p.version_entries(Direction::Backwards);
            proof {
                lemma_first_from_member(es, m@);
            }
            let parent = match p.get_changeset_safe(&id) {
                Some(c) => c.old_version.clone(),
                None => {
                    return Err(m.clone());
                },
            };
            push_name(done, m);
            let ghost out_before = out@;
            out.push(id);
            let r = chain_of(p, backward, &parent, done, fuel - 1, out);
            proof {
                assert(out_before.push(id) =~= out_before + seq![id]);
                match chain_plan(*p, parent@, texts(old(done)@).to_set().insert(m@), (fuel - 1) as nat) {
                    Ok((ids, d)) => {
                        assert(out@ =~= out_before + (seq![id] + ids));
                    },
                    Err(x) => {},
                }
            }
            r
        },
    }
}

/// The changeset that `first_from` finds is that of an entry leading from `m`.
proof fn lemma_first_from_member(es: Entries, m: Seq<char>)
    ensures
        first_from(es, m) matches Some(id) ==> exists|i: int| 0 <= i < es.len() && #[trigger] es[i] == (m, es[i].1, id),
    decreases es.len(),
{
    if es.len() > 0 {
        lemma_first_from_member(es.drop_last(), m);
        match first_from(es.drop_last(), m) {
            Some(id) => {
                let i = choose|i: int| 0 <= i < es.drop_last().len() && #[trigger] es.drop_last()[i] == (m, es.drop_last()[i].1, id);
                assert(es[i] == es.drop_last()[i]);
            },
            None => {
                if es.last().0 == m {
                    assert(es[es.len() - 1] == (m, es[es.len() - 1].1, es.last().2));
                }
            },
        }
    }
}

fn missing_names(p: &Project) -> (r: Vec<String>)
    ensures
        texts(r@) == missing_targets(*p),
{
    let forward = p.iter_version(Some(Direction::Forward));
    let ghost pred = |n: Seq<char>| !p.schema_map().contains_key(n);
    let ghost targets = triples_view(forward@).map_values(|e: (Seq<char>, Seq<char>, u64)| e.1);
    let mut r: Vec<String> = Vec::new();
    let n = forward.len();
    let mut i: usize = 0;
    while i < n
        invariant
            n == forward@.len(),
            i <= n,
            pred == (|n: Seq<char>| !p.schema_map().contains_key(n)),
            targets == triples_view(forward@).map_values(|e: (Seq<char>, Seq<char>, u64)| e.1),
            texts(r@) == targets.take(i as int).filter(pred),
        decreases n - i,
    {
        let name = &forward[i].1;
        proof {
            assert(targets[i as int] == name@);
            assert(targets.take(i + 1) =~= targets.take(i as int).push(name@));
            targets.take(i as int).lemma_filter_push(name@, pred);
        }
        if !p.has_schema(name.as_str()) {
            let ghost before = texts(r@);
            r.push(name.clone());
            assert(texts(r@) =~= before.push(name@));
        }
        i = i + 1;
    }
    assert(targets.take(n as int) =~= targets);
    r
}

fn reversed(v: &Vec<u64>) -> (r: Vec<u64>)
    ensures
        r@ == v@.reverse(),
{
    let mut r: Vec<u64> = Vec::new();
    let n = v.len();
    let mut i: usize = n;
    while i > 0
        invariant
            n == v@.len(),
            i <= n,
            r@ == v@.subrange(i as int, n as int).reverse(),
        decreases i,
    {
        i = i - 1;
        let ghost before = r@;
        r.push(v[i]);
        assert(r@ =~= v@.subrange(i as int, n as int).reverse());
    }
    assert(v@.subrange(0, n as int) =~= v@);
    r
}

/// The reverse of the entry `e` is among the entries of `fw` or `bw`.
pub open spec fn reversed_in(e: (String, String, u64), fw: Seq<(String, String, u64)>, bw: Seq<(String, String, u64)>) -> bool {
    (exists|j: int| 0 <= j < fw.len() && #[trigger] fw[j].0@ == e.1@ && fw[j].1@ == e.0@) || (exists|j: int|
        0 <= j < bw.len() && #[trigger] bw[j].0@ == e.1@ && bw[j].1@ == e.0@)
}

pub open spec fn all_reversed_spec(
    es: Seq<(String, String, u64)>,
    fw: Seq<(String, String, u64)>,
    bw: Seq<(String, String, u64)>,
) -> bool {
    forall|i: int| 0 <= i < es.len() ==> reversed_in(#[trigger] es[i], fw, bw)
}

/// Whether the pair `(a, b)` is the (from, to) of one of the entries.
fn has_pair(es: &Vec<(String, String, u64)>, a: &str, b: &str) -> (r: bool)
    ensures
        r == exists|i: int| 0 <= i < es@.len() && #[trigger] es@[i].0@ == a@ && es@[i].1@ == b@,
{
    let n = es.len();
    let mut i: usize = 0;
    while i < n
        invariant
            n == es@.len(),
            i <= n,
            forall|j: int| 0 <= j < i ==> !(#[trigger] es@[j].0@ == a@ && es@[j].1@ == b@),
        decreases n - i,
    {
        if str_equal(es[i].0.as_str(), a) && str_equal(es[i].1.as_str(), b) {
            return true;
        }
        i = i + 1;
    }
    false
}

/// Whether each entry has its reverse among the entries of `fw` or `bw`.
fn all_reversed(es: &Vec<(String, String, u64)>, fw: &Vec<(String, String, u64)>, bw: &Vec<(String, String, u64)>) -> (r:
    bool)
    ensures
        r == all_reversed_spec(es@, fw@, bw@),
{
    let n = es.len();
    let mut i: usize = 0;
    while i < n
        invariant
            n == es@.len(),
            i <= n,
            forall|k: int| 0 <= k < i ==> reversed_in(#[trigger] es@[k], fw@, bw@),
        decreases n - i,
    {
        let a = es[i].1.as_str();
        let b = es[i].0.as_str();
        if !has_pair(fw, a, b) && !has_pair(bw, a, b) {
            assert(!reversed_in(es@[i as int], fw@, bw@));
            return false;
        }
        i = i + 1;
    }
    true
}

/// Whether each entry leading back names a known changeset made towards the schema it
/// leads from.
fn backward_links_known(p: &Project, bw: &Vec<(String, String, u64)>) -> (r: bool)
    ensures
        r == forall|i: int|
            0 <= i < bw@.len() ==> {
                &&& p.changeset_map().contains_key(#[trigger] bw@[i].2)
                &&& p.changeset_map()[bw@[i].2].new_version@ == bw@[i].0@
            },
{
    let n = bw.len();
    let mut i: usize = 0;
    while i < n
        invariant
            n == bw@.len(),
            i <= n,
            forall|k: int|
                0 <= k < i ==> {
                    &&& p.changeset_map().contains_key(#[trigger] bw@[k].2)
                    &&& p.changeset_map()[bw@[k].2].new_version@ == bw@[k].0@
                },
        decreases n - i,
    {
        match p.get_changeset_safe(&bw[i].2) {
            Some(c) => {
                if !str_equal(c.new_version.as_str(), bw[i].0.as_str()) {
                    return false;
                }
            },
            None => {
                return false;
            },
        }
        i = i + 1;
    }
    true
}

impl Project {
    /// Whether the missing schemas of the project can be planned: whether each entry of
    /// the version tree has its reverse, and each entry leading back names a known
    /// changeset made towards the schema it leads from.
    pub fn is_plannable(&self) -> (r: bool)
        ensures
            r == plannable(*self),
    {
        let fw = self.iter_version(Some(Direction::Forward));
        let bw = self.iter_version(Some(Direction::Backwards));
        let sym = all_reversed(&fw, &fw, &bw) && all_reversed(&bw, &fw, &bw);
        let links = backward_links_known(self, &bw);
        proof {
            let es = self.version_entries(Direction::Backwards);
            assert(triples_view(bw@).len() == bw@.len());
            assert forall|i: int| 0 <= i < es.len() implies es[i] == (bw@[i].0@, bw@[i].1@, bw@[i].2) by {
                assert(triples_view(bw@)[i] == (bw@[i].0@, bw@[i].1@, bw@[i].2));
            }
            let t = self.tree();
            if sym {
                assert forall|k: (Seq<char>, Seq<char>)| #[trigger] t.contains_key(k) implies t.contains_key((k.1, k.0)) by {
                    if t[k].1 == Direction::Forward {
                        let i = choose|i: int| 0 <= i < fw@.len() && (fw@[i].0@, fw@[i].1@) == k;
                        assert(fw@[i].0@ == k.0 && fw@[i].1@ == k.1);
                    } else {
                        let i = choose|i: int| 0 <= i < bw@.len() && (bw@[i].0@, bw@[i].1@) == k;
                        assert(bw@[i].0@ == k.0 && bw@[i].1@ == k.1);
                    }
                }
            } else {
                if !all_reversed_spec(fw@, fw@, bw@) {
                    let i = choose|i: int| 0 <= i < fw@.len() && !reversed_in(fw@[i], fw@, bw@);
                    assert(t.contains_key((fw@[i].0@, fw@[i].1@)));
                    if t.contains_key((fw@[i].1@, fw@[i].0@)) {
                        let k = (fw@[i].1@, fw@[i].0@);
                        if t[k].1 == Direction::Forward {
                            let j = choose|j: int| 0 <= j < fw@.len() && (fw@[j].0@, fw@[j].1@) == k;
                            assert(fw@[j].0@ == fw@[i].1@ && fw@[j].1@ == fw@[i].0@);
                        } else {
                            let j = choose|j: int| 0 <= j < bw@.len() && (bw@[j].0@, bw@[j].1@) == k;
                            assert(bw@[j].0@ == fw@[i].1@ && bw@[j].1@ == fw@[i].0@);
                        }
                    }
                } else {
                    let i = choose|i: int| 0 <= i < bw@.len() && !reversed_in(bw@[i], fw@, bw@);
                    assert(t.contains_key((bw@[i].0@, bw@[i].1@)));
                    if t.contains_key((bw@[i].1@, bw@[i].0@)) {
                        let k = (bw@[i].1@, bw@[i].0@);
                        if t[k].1 == Direction::Forward {
                            let j = choose|j: int| 0 <= j < fw@.len() && (fw@[j].0@, fw@[j].1@) == k;
                            assert(fw@[j].0@ == bw@[i].1@ && fw@[j].1@ == bw@[i].0@);
                        } else {
                            let j = choose|j: int| 0 <= j < bw@.len() && (bw@[j].0@, bw@[j].1@) == k;
                            assert(bw@[j].0@ == bw@[i].1@ && bw@[j].1@ == bw@[i].0@);
                        }
                    }
                }
            }
            let part1 = forall|k: (Seq<char>, Seq<char>)| #[trigger] t.contains_key(k) ==> t.contains_key((k.1, k.0));
            let part2 = forall|i: int|
                0 <= i < es.len() ==> {
                    let e = #[trigger] es[i];
                    &&& self.changeset_map().contains_key(e.2)
                    &&& self.changeset_map()[e.2].new_version@ == e.0
                };
            assert(sym == part1);
            assert(links == part2) by {
                if links {
                    assert forall|i: int| 0 <= i < es.len() implies {
                        let e = #[trigger] es[i];
                        &&& self.changeset_map().contains_key(e.2)
                        &&& self.changeset_map()[e.2].new_version@ == e.0
                    } by {
                        assert(es[i] == (bw@[i].0@, bw@[i].1@, bw@[i].2));
                    }
                } else {
                    let i = choose|i: int| 0 <= i < bw@.len() && !{
                        &&& self.changeset_map().contains_key(#[trigger] bw@[i].2)
                        &&& self.changeset_map()[bw@[i].2].new_version@ == bw@[i].0@
                    };
                    assert(es[i] == (bw@[i].0@, bw@[i].1@, bw@[i].2));
                }
            }
        }
        sym && links
    }

    /// The changesets to apply, in order, to build the schemas that a changeset leads to
    /// but that the project does not have: from each, the walk back to a schema that is
    /// there. The error names a schema from which no changeset leads back.
    pub fn missing_schema_plan(&self) -> (r: GenResult<Vec<u64>>)
        requires
            plannable(*self),
        ensures
            match missing_plan(*self) {
                Ok(ids) => r matches Ok(v) && v@ == ids,
                Err(x) => r matches Err(GenError::UnreachableSchema { target }) && target@ == x,
            },
    {
        let ms = missing_names(self);
        let backward = self.iter_version(Some(Direction::Backwards));
        let mut done = self.iter_schema();
        proof {
            assert forall|k: Seq<char>| texts(done@).to_set().contains(k) <==> self.schema_map().dom().contains(k) by {
                if texts(done@).to_set().contains(k) {
                    let j = choose|j: int| 0 <= j < texts(done@).len() && texts(done@)[j] == k;
                    assert(done@[j]@ == k);
                }
                if self.schema_map().dom().contains(k) {
                    let j = choose|j: int| 0 <= j < done@.len() && done@[j]@ == k;
                    assert(texts(done@)[j] == k);
                }
            }
            assert(texts(done@).to_set() =~= self.schema_map().dom());
        }
        let fuel = backward.len();
        assert(triples_view(backward@).len() == backward@.len());
        assert(fuel as nat == self.version_entries(Direction::Backwards).len());
        let ghost whole = plan_all(*self, texts(ms@), self.schema_map().dom(), fuel as nat);
        let mut out: Vec<u64> = Vec::new();
        let mut j: usize = ms.len();
        proof {
            assert(texts(ms@).take(ms@.len() as int) =~= texts(ms@));
            match whole {
                Ok((m, d)) => {
                    assert(out@ + m =~= m);
                },
                Err(x) => {},
            }
        }
        while j > 0
            invariant
                j <= ms@.len(),
                plannable(*self),
                triples_view(backward@) == self.version_entries(Direction::Backwards),
                fuel == backward@.len(),
                fuel as nat == self.version_entries(Direction::Backwards).len(),
                texts(ms@) == missing_targets(*self),
                whole == plan_all(*self, missing_targets(*self), self.schema_map().dom(), fuel as nat),
                whole == match plan_all(*self, texts(ms@).take(j as int), texts(done@).to_set(), fuel as nat) {
                    Ok((more, d2)) => Ok((out@ + more, d2)),
                    Err(x) => Err(x),
                },
            decreases j,
        {
            let ghost msj = texts(ms@).take(j as int);
            let ghost d0 = texts(done@).to_set();
            let ghost out0 = out@;
            proof {
                assert(msj.last() == ms@[j - 1]@);
                assert(msj.drop_last() =~= texts(ms@).take(j - 1));
            }
            match chain_of(self, &backward, &ms[j - 1], &mut done, fuel, &mut out) {
                Ok(()) => {
                    proof {
                        let (ids, d) = chain_plan(*self, msj.last(), d0, fuel as nat)->Ok_0;
                        match plan_all(*self, texts(ms@).take(j - 1), d, fuel as nat) {
                            Ok((more, d2)) => {
                                assert(out0 + (ids + more) =~= (out0 + ids) + more);
                            },
                            Err(x) => {},
                        }
                    }
                },
                Err(x) => {
                    proof {
                        let xs = chain_plan(*self, msj.last(), d0, fuel as nat)->Err_0;
                        assert(x@ == xs);
                        assert(plan_all(*self, msj, d0, fuel as nat) == Err::<(Seq<u64>, Set<Seq<char>>), Seq<char>>(xs));
                        assert(missing_plan(*self) == Err::<Seq<u64>, Seq<char>>(xs));
                    }
                    return Err(GenError::UnreachableSchema { target: x });
                },
            }
            j = j - 1;
        }
        proof {
            assert(texts(ms@).take(0) =~= Seq::<Seq<char>>::empty());
            assert(out@ + Seq::<u64>::empty() =~= out@);
        }
        Ok(reversed(&out))
    }
}

} // verus!
