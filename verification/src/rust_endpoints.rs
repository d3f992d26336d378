use vstd::prelude::*;
use vstd::string::*;

use crate::direction::{
    function_suffix, rename_attribute_name, search_dir, spec_function_suffix, spec_rename_attribute_name,
    spec_search_dir, Direction,
};
use crate::edge_representation::{
    rank, spec_collect_results_rust, spec_from_bounds, spec_most_inclusive, spec_return_type_rust, EdgeRepresentation,
    LowerBound,
};
use crate::ordering::{insert_sorted, lemma_sorted_names, sorted_names, strictly_sorted};
use crate::generated_code::{spec_add_content, GeneratedCode};
use crate::paths::{join_path, spec_join_path};
use crate::project::str_equal;
use crate::schema::{AttributeFunction, EdgeExp, EndPoint, KeyValue, NodeExp, Schema, SchemaStm};
use crate::text::{
    concat_map, decimal_text, dots_to_underscores, join_strings, join_texts, join_wrapped, lemma_concat_map_all,
    lemma_concat_map_step, replace_dots, snake_text, texts, to_snake_case, wrap_texts, write_decimal,
};

verus! {

/// An endpoint of an edge type, together with the edge type it belongs to.
pub type Link = (EndPoint, EdgeExp);

/// The endpoints of one edge statement, each with its edge.
pub open spec fn edge_links(e: EdgeExp) -> Seq<Link> {
    e.endpoints@.map_values(|p: EndPoint| (p, e))
}

/// The endpoints of a statement: those of an edge, none for the others.
pub open spec fn stm_links(st: SchemaStm) -> Seq<Link> {
    match st {
        SchemaStm::Edge(e) => edge_links(e),
        _ => Seq::empty(),
    }
}

/// All endpoints of a schema, edge after edge, each edge's endpoints in order.
pub open spec fn all_links(c: Seq<SchemaStm>) -> Seq<Link>
    decreases c.len(),
{
    if c.len() == 0 {
        Seq::empty()
    } else {
        all_links(c.drop_last()) + stm_links(c.last())
    }
}

/// The node an endpoint is followed from in direction `dir`.
pub open spec fn start_of(p: EndPoint, dir: Direction) -> Seq<char> {
    match dir {
        Direction::Forward => p.source@,
        Direction::Backwards => p.target@,
    }
}

/// The node an endpoint leads to in direction `dir`.
pub open spec fn end_of(p: EndPoint, dir: Direction) -> Seq<char> {
    match dir {
        Direction::Forward => p.target@,
        Direction::Backwards => p.source@,
    }
}

/// The bounds on the number of edges met in direction `dir`.
pub open spec fn quantity_of(p: EndPoint, dir: Direction) -> Option<(LowerBound, u32)> {
    match dir {
        Direction::Forward => p.outgoing_quantity.bounds,
        Direction::Backwards => p.incoming_quantity.bounds,
    }
}

/// The node at one side of an endpoint: the start when `at_start` is set, the end otherwise.
pub open spec fn side_of(p: EndPoint, dir: Direction, at_start: bool) -> Seq<char> {
    if at_start {
        start_of(p, dir)
    } else {
        end_of(p, dir)
    }
}

/// The links whose node at the given side is `name`, in order.
pub open spec fn links_at(s: Seq<Link>, name: Seq<char>, dir: Direction, at_start: bool) -> Seq<Link>
    decreases s.len(),
{
    if s.len() == 0 {
        Seq::empty()
    } else {
        links_at(s.drop_last(), name, dir, at_start) + if side_of(s.last().0, dir, at_start) == name {
            seq![s.last()]
        } else {
            Seq::empty()
        }
    }
}

/// The links that start at `node` in direction `dir`, in order.
pub open spec fn links_from(s: Seq<Link>, node: Seq<char>, dir: Direction) -> Seq<Link> {
    links_at(s, node, dir, true)
}

/// The names of the nodes at both sides of each link, source then target.
pub open spec fn link_names(s: Seq<Link>) -> Seq<Seq<char>>
    decreases s.len(),
{
    if s.len() == 0 {
        Seq::empty()
    } else {
        link_names(s.drop_last()) + seq![s.last().0.source@, s.last().0.target@]
    }
}

/// The names of the nodes the links lead to in direction `dir`.
pub open spec fn end_names(s: Seq<Link>, dir: Direction) -> Seq<Seq<char>> {
    s.map_values(|l: Link| end_of(l.0, dir))
}

/// Where a link sits in a schema: the index of its edge statement and of the endpoint.
pub open spec fn link_at(c: Seq<SchemaStm>, ix: (usize, usize)) -> Link {
    let e = c[ix.0 as int]->Edge_0;
    (e.endpoints@[ix.1 as int], e)
}

pub open spec fn valid_ix(c: Seq<SchemaStm>, ix: (usize, usize)) -> bool {
    &&& ix.0 < c.len()
    &&& c[ix.0 as int] is Edge
    &&& ix.1 < c[ix.0 as int]->Edge_0.endpoints@.len()
}

/// The links a list of places stands for.
pub open spec fn ix_view(c: Seq<SchemaStm>, v: Seq<(usize, usize)>) -> Seq<Link> {
    v.map_values(|ix: (usize, usize)| link_at(c, ix))
}

pub open spec fn all_valid(c: Seq<SchemaStm>, v: Seq<(usize, usize)>) -> bool {
    forall|k: int| 0 <= k < v.len() ==> valid_ix(c, #[trigger] v[k])
}

proof fn lemma_links_at_append(a: Seq<Link>, b: Seq<Link>, name: Seq<char>, dir: Direction, at_start: bool)
    ensures
        links_at(a + b, name, dir, at_start) == links_at(a, name, dir, at_start) + links_at(
            b,
            name,
            dir,
            at_start,
        ),
    decreases b.len(),
{
    if b.len() == 0 {
        assert(a + b =~= a);
    } else {
        lemma_links_at_append(a, b.drop_last(), name, dir, at_start);
        assert((a + b).drop_last() =~= a + b.drop_last());
    }
}

proof fn lemma_link_names_append(a: Seq<Link>, b: Seq<Link>)
    ensures
        link_names(a + b) == link_names(a) + link_names(b),
    decreases b.len(),
{
    if b.len() == 0 {
        assert(a + b =~= a);
        assert(link_names(a) + link_names(b) =~= link_names(a));
    } else {
        lemma_link_names_append(a, b.drop_last());
        assert((a + b).drop_last() =~= a + b.drop_last());
        assert(link_names(a + b) =~= link_names(a) + link_names(b));
    }
}

fn edge_of(st: &SchemaStm) -> (r: Option<&EdgeExp>)
    ensures
        match r {
            Some(e) => st is Edge && *e == st->Edge_0,
            None => !(st is Edge),
        },
{
    match st {
        SchemaStm::Edge(e) => Some(e),
        _ => None,
    }
}

/// The endpoint and the edge at a place of the schema.
pub(crate) fn link_ref(content: &Vec<SchemaStm>, ix: (usize, usize)) -> (r: (&EndPoint, &EdgeExp))
    requires
        valid_ix(content@, ix),
    ensures
        (*r.0, *r.1) == link_at(content@, ix),
{
    let e = edge_of(&content[ix.0]).unwrap();
    (&e.endpoints[ix.1], e)
}

/// The places of all endpoints of the schema, in order.
pub(crate) fn gather_links(content: &Vec<SchemaStm>) -> (r: Vec<(usize, usize)>)
    ensures
        all_valid(content@, r@),
        ix_view(content@, r@) == all_links(content@),
{
    let mut r: Vec<(usize, usize)> = Vec::new();
    let n = content.len();
    let mut i: usize = 0;
    while i < n
        invariant
            n == content@.len(),
            i <= n,
            all_valid(content@, r@),
            ix_view(content@, r@) == all_links(content@.take(i as int)),
        decreases n - i,
    {
        assert(content@.take(i + 1).drop_last() =~= content@.take(i as int));
        match edge_of(&content[i]) {
            Some(e) => {
                let m = e.endpoints.len();
                let mut j: usize = 0;
                while j < m
                    invariant
                        n == content@.len(),
                        i < n,
                        content@[i as int] is Edge,
                        *e == content@[i as int]->Edge_0,
                        m == e.endpoints@.len(),
                        j <= m,
                        all_valid(content@, r@),
                        ix_view(content@, r@) == all_links(content@.take(i as int)) + edge_links(
                            *e,
                        ).take(j as int),
                    decreases m - j,
                {
                    let ghost before = ix_view(content@, r@);
                    r.push((i, j));
                    assert(ix_view(content@, r@) =~= before.push(link_at(content@, (i, j))));
                    assert(edge_links(*e).take(j + 1) =~= edge_links(*e).take(j as int).push(
                        link_at(content@, (i, j)),
                    ));
                    j = j + 1;
                }
                assert(edge_links(*e).take(m as int) =~= edge_links(*e));
            },
            None => {
                assert(all_links(content@.take(i + 1)) =~= all_links(content@.take(i as int)));
            },
        }
        i = i + 1;
    }
    assert(content@.take(n as int) =~= content@);
    r
}

/// The places among `links` whose node at the given side is `name`, in order.
pub(crate) fn filter_links(
    content: &Vec<SchemaStm>,
    links: &Vec<(usize, usize)>,
    name: &str,
    dir: Direction,
    at_start: bool,
) -> (r: Vec<(usize, usize)>)
    requires
        all_valid(content@, links@),
    ensures
        all_valid(content@, r@),
        ix_view(content@, r@) == links_at(ix_view(content@, links@), name@, dir, at_start),
{
    let mut r: Vec<(usize, usize)> = Vec::new();
    let n = links.len();
    let mut i: usize = 0;
    while i < n
        invariant
            n == links@.len(),
            i <= n,
            all_valid(content@, links@),
            all_valid(content@, r@),
            ix_view(content@, r@) == links_at(
                ix_view(content@, links@.take(i as int)),
                name@,
                dir,
                at_start,
            ),
        decreases n - i,
    {
        let ix = links[i];
        assert(valid_ix(content@, links@[i as int]));
        let (p, _e) = link_ref(content, ix);
        assert(ix_view(content@, links@.take(i + 1)).drop_last() =~= ix_view(
            content@,
            links@.take(i as int),
        ));
        let side = match dir {
            Direction::Forward => if at_start {
                &p.source
            } else {
                &p.target
            },
            Direction::Backwards => if at_start {
                &p.target
            } else {
                &p.source
            },
        };
        let ghost before = ix_view(content@, r@);
        if str_equal(side.as_str(), name) {
            r.push(ix);
            assert(ix_view(content@, r@) =~= before.push(link_at(content@, ix)));
        }
        i = i + 1;
    }
    assert(links@.take(n as int) =~= links@);
    r
}

/// The names of the nodes at either side of the links, each once, in the order of `String`.
pub(crate) fn sorted_link_names(content: &Vec<SchemaStm>, links: &Vec<(usize, usize)>) -> (r: Vec<String>)
    requires
        all_valid(content@, links@),
    ensures
        texts(r@) == sorted_names(link_names(ix_view(content@, links@))),
{
    let mut r: Vec<String> = Vec::new();
    let n = links.len();
    let mut i: usize = 0;
    proof {
        assert(texts(r@).to_set() =~= link_names(ix_view(content@, links@.take(0))).to_set());
    }
    while i < n
        invariant
            n == links@.len(),
            i <= n,
            all_valid(content@, links@),
            strictly_sorted(texts(r@)),
            texts(r@).to_set() == link_names(ix_view(content@, links@.take(i as int))).to_set(),
        decreases n - i,
    {
        assert(valid_ix(content@, links@[i as int]));
        let (p, _e) = link_ref(content, links[i]);
        let ghost prev = link_names(ix_view(content@, links@.take(i as int)));
        insert_sorted(&mut r, p.source.as_str());
        insert_sorted(&mut r, p.target.as_str());
        proof {
            assert(ix_view(content@, links@.take(i + 1)).drop_last() =~= ix_view(
                content@,
                links@.take(i as int),
            ));
            let now = link_names(ix_view(content@, links@.take(i + 1)));
            assert(now =~= prev.push(p.source@).push(p.target@));
            prev.lemma_push_to_set_commute(p.source@);
            prev.push(p.source@).lemma_push_to_set_commute(p.target@);
        }
        i = i + 1;
    }
    proof {
        assert(links@.take(n as int) =~= links@);
        lemma_sorted_names(texts(r@), link_names(ix_view(content@, links@)));
    }
    r
}

/// The names of the nodes the links lead to, each once, in the order of `String`.
pub(crate) fn sorted_end_names(content: &Vec<SchemaStm>, links: &Vec<(usize, usize)>, dir: Direction) -> (r: Vec<
    String,
>)
    requires
        all_valid(content@, links@),
    ensures
        texts(r@) == sorted_names(end_names(ix_view(content@, links@), dir)),
{
    let mut r: Vec<String> = Vec::new();
    let n = links.len();
    let mut i: usize = 0;
    proof {
        assert(texts(r@).to_set() =~= end_names(ix_view(content@, links@.take(0)), dir).to_set());
    }
    while i < n
        invariant
            n == links@.len(),
            i <= n,
            all_valid(content@, links@),
            strictly_sorted(texts(r@)),
            texts(r@).to_set() == end_names(ix_view(content@, links@.take(i as int)), dir).to_set(),
        decreases n - i,
    {
        assert(valid_ix(content@, links@[i as int]));
        let (p, _e) = link_ref(content, links[i]);
        let ghost prev = end_names(ix_view(content@, links@.take(i as int)), dir);
        let end = match dir {
            Direction::Forward => &p.target,
            Direction::Backwards => &p.source,
        };
        insert_sorted(&mut r, end.as_str());
        proof {
            let now = end_names(ix_view(content@, links@.take(i + 1)), dir);
            assert(now =~= prev.push(end@));
            prev.lemma_push_to_set_commute(end@);
        }
        i = i + 1;
    }
    proof {
        assert(links@.take(n as int) =~= links@);
        lemma_sorted_names(texts(r@), end_names(ix_view(content@, links@), dir));
    }
    r
}

/// An attribute function `key` whose second value is `end`.
pub open spec fn rename_match(f: AttributeFunction, key: Seq<char>, end: Seq<char>) -> bool {
    f.name@ == key && f.values@.len() >= 2 && f.values@[1]@ == end
}

/// The first value of the first attribute function `key` whose second value is `end`.
pub open spec fn first_rename(fs: Seq<AttributeFunction>, key: Seq<char>, end: Seq<char>) -> Option<Seq<char>>
    decreases fs.len(),
{
    if fs.len() == 0 {
        None
    } else if rename_match(fs[0], key, end) {
        Some(fs[0].values@[0]@)
    } else {
        first_rename(fs.drop_first(), key, end)
    }
}

pub(crate) fn find_rename<'a>(fs: &'a Vec<AttributeFunction>, key: &str, end: &str) -> (r: Option<&'a String>)
    ensures
        match r {
            Some(v) => first_rename(fs@, key@, end@) == Some(v@),
            None => first_rename(fs@, key@, end@) is None,
        },
{
    let n = fs.len();
    let mut i: usize = 0;
    assert(fs@.skip(0) =~= fs@);
    while i < n
        invariant
            n == fs@.len(),
            i <= n,
            first_rename(fs@, key@, end@) == first_rename(fs@.skip(i as int), key@, end@),
        decreases n - i,
    {
        assert(fs@.skip(i as int).drop_first() =~= fs@.skip(i + 1));
        assert(fs@.skip(i as int)[0] == fs@[i as int]);
        let f = &fs[i];
        if str_equal(f.name.as_str(), key) && f.values.len() >= 2 && str_equal(f.values[1].as_str(), end) {
            return Some(&f.values[0]);
        }
        i = i + 1;
    }
    None
}

/// The value of the first key-value attribute `key`.
pub open spec fn first_key_value(kvs: Seq<KeyValue>, key: Seq<char>) -> Option<Seq<char>>
    decreases kvs.len(),
{
    if kvs.len() == 0 {
        None
    } else if kvs[0].key@ == key {
        Some(kvs[0].value@)
    } else {
        first_key_value(kvs.drop_first(), key)
    }
}

pub(crate) fn find_key_value<'a>(kvs: &'a Vec<KeyValue>, key: &str) -> (r: Option<&'a String>)
    ensures
        match r {
            Some(v) => first_key_value(kvs@, key@) == Some(v@),
            None => first_key_value(kvs@, key@) is None,
        },
{
    let n = kvs.len();
    let mut i: usize = 0;
    assert(kvs@.skip(0) =~= kvs@);
    while i < n
        invariant
            n == kvs@.len(),
            i <= n,
            first_key_value(kvs@, key@) == first_key_value(kvs@.skip(i as int), key@),
        decreases n - i,
    {
        assert(kvs@.skip(i as int).drop_first() =~= kvs@.skip(i + 1));
        assert(kvs@.skip(i as int)[0] == kvs@[i as int]);
        if str_equal(kvs[i].key.as_str(), key) {
            return Some(&kvs[i].value);
        }
        i = i + 1;
    }
    None
}

/// The last node statement named `name`.
pub open spec fn last_node(c: Seq<SchemaStm>, name: Seq<char>) -> Option<NodeExp>
    decreases c.len(),
{
    if c.len() == 0 {
        None
    } else {
        match c.last() {
            SchemaStm::Node(n) => if n.name@ == name {
                Some(n)
            } else {
                last_node(c.drop_last(), name)
            },
            _ => last_node(c.drop_last(), name),
        }
    }
}

pub(crate) fn find_last_node<'a>(content: &'a Vec<SchemaStm>, name: &str) -> (r: Option<&'a NodeExp>)
    ensures
        match r {
            Some(n) => last_node(content@, name@) == Some(*n),
            None => last_node(content@, name@) is None,
        },
{
    let mut found: Option<&NodeExp> = None;
    let n = content.len();
    let mut i: usize = 0;
    while i < n
        invariant
            n == content@.len(),
            i <= n,
            match found {
                Some(x) => last_node(content@.take(i as int), name@) == Some(*x),
                None => last_node(content@.take(i as int), name@) is None,
            },
        decreases n - i,
    {
        assert(content@.take(i + 1).drop_last() =~= content@.take(i as int));
        match &content[i] {
            SchemaStm::Node(x) => {
                if str_equal(x.name.as_str(), name) {
                    found = Some(x);
                }
            },
            _ => {},
        }
        i = i + 1;
    }
    assert(content@.take(n as int) =~= content@);
    found
}

/// The name the node `node` gives, by an attribute, to its getter of the nodes `end`.
pub open spec fn node_rename(c: Seq<SchemaStm>, node: Seq<char>, end: Seq<char>, rename_key: Seq<char>) -> Option<
    Seq<char>,
> {
    match last_node(c, node) {
        Some(n) => first_rename(n.attributes.functions@, rename_key, end),
        None => None,
    }
}

/// `r` made as inclusive as the endpoints among `eps` leading from `node` to `end` demand.
pub open spec fn fold_eps(
    r: EdgeRepresentation,
    eps: Seq<EndPoint>,
    node: Seq<char>,
    end: Seq<char>,
    dir: Direction,
) -> EdgeRepresentation
    decreases eps.len(),
{
    if eps.len() == 0 {
        r
    } else {
        let r1 = fold_eps(r, eps.drop_last(), node, end, dir);
        let p = eps.last();
        if start_of(p, dir) == node && end_of(p, dir) == end {
            spec_most_inclusive(spec_from_bounds(quantity_of(p, dir)), r1)
        } else {
            r1
        }
    }
}

/// The representation of the getter from `node` to the nodes `end`: the most inclusive
/// that the endpoints from `node` to `end` of the edges `group` demand, at least `Result`.
pub open spec fn group_repr(group: Seq<EdgeExp>, node: Seq<char>, end: Seq<char>, dir: Direction) -> EdgeRepresentation
    decreases group.len(),
{
    if group.len() == 0 {
        EdgeRepresentation::Result
    } else {
        fold_eps(group_repr(group.drop_last(), node, end, dir), group.last().endpoints@, node, end, dir)
    }
}

/// The edges of the links, in order.
pub open spec fn link_edges(s: Seq<Link>) -> Seq<EdgeExp> {
    s.map_values(|l: Link| l.1)
}

pub(crate) fn group_repr_of(
    content: &Vec<SchemaStm>,
    group: &Vec<(usize, usize)>,
    node: &str,
    end: &str,
    dir: Direction,
) -> (r: EdgeRepresentation)
    requires
        all_valid(content@, group@),
    ensures
        r == group_repr(link_edges(ix_view(content@, group@)), node@, end@, dir),
{
    let mut r = EdgeRepresentation::Result;
    let n = group.len();
    let mut i: usize = 0;
    while i < n
        invariant
            n == group@.len(),
            i <= n,
            all_valid(content@, group@),
            r == group_repr(link_edges(ix_view(content@, group@.take(i as int))), node@, end@, dir),
        decreases n - i,
    {
        assert(valid_ix(content@, group@[i as int]));
        let (_p, e) = link_ref(content, group[i]);
        let ghost start = r;
        let m = e.endpoints.len();
        let mut j: usize = 0;
        while j < m
            invariant
                m == e.endpoints@.len(),
                j <= m,
                r == fold_eps(start, e.endpoints@.take(j as int), node@, end@, dir),
            decreases m - j,
        {
            assert(e.endpoints@.take(j + 1).drop_last() =~= e.endpoints@.take(j as int));
            let p = &e.endpoints[j];
            let (s_name, e_name, q) = match dir {
                Direction::Forward => (&p.source, &p.target, &p.outgoing_quantity),
                Direction::Backwards => (&p.target, &p.source, &p.incoming_quantity),
            };
            if str_equal(s_name.as_str(), node) && str_equal(e_name.as_str(), end) {
                r = EdgeRepresentation::from_bounds(&q.bounds).most_inclusive(r);
            }
            j = j + 1;
        }
        assert(e.endpoints@.take(m as int) =~= e.endpoints@);
        assert(link_edges(ix_view(content@, group@.take(i + 1))).drop_last() =~= link_edges(
            ix_view(content@, group@.take(i as int)),
        ));
        i = i + 1;
    }
    assert(group@.take(n as int) =~= group@);
    r
}

/// The representation of the getter of the edges `name`: the most inclusive that their
/// endpoints among the links demand, at least `Result`.
pub open spec fn edge_repr(s: Seq<Link>, name: Seq<char>, dir: Direction) -> EdgeRepresentation
    decreases s.len(),
{
    if s.len() == 0 {
        EdgeRepresentation::Result
    } else {
        let r1 = edge_repr(s.drop_last(), name, dir);
        if s.last().1.name@ == name {
            spec_most_inclusive(spec_from_bounds(quantity_of(s.last().0, dir)), r1)
        } else {
            r1
        }
    }
}

/// The nodes the edges `name` among the links lead to, each once, in the order first met.
pub open spec fn edge_ends(s: Seq<Link>, name: Seq<char>, dir: Direction) -> Seq<Seq<char>>
    decreases s.len(),
{
    if s.len() == 0 {
        Seq::empty()
    } else {
        let prev = edge_ends(s.drop_last(), name, dir);
        let x = end_of(s.last().0, dir);
        if s.last().1.name@ == name && !prev.contains(x) {
            prev.push(x)
        } else {
            prev
        }
    }
}

fn contains_text(v: &Vec<String>, x: &str) -> (r: bool)
    ensures
        r == texts(v@).contains(x@),
{
    let n = v.len();
    let mut i: usize = 0;
    while i < n
        invariant
            n == v@.len(),
            i <= n,
            forall|j: int| 0 <= j < i ==> texts(v@)[j] != x@,
        decreases n - i,
    {
        if str_equal(v[i].as_str(), x) {
            assert(texts(v@)[i as int] == x@);
            return true;
        }
        i = i + 1;
    }
    false
}

/// The representation and the target nodes of the getter of the edges `name`.
pub(crate) fn edge_summary(content: &Vec<SchemaStm>, links: &Vec<(usize, usize)>, name: &str, dir: Direction) -> (r: (
    EdgeRepresentation,
    Vec<String>,
))
    requires
        all_valid(content@, links@),
    ensures
        r.0 == edge_repr(ix_view(content@, links@), name@, dir),
        texts(r.1@) == edge_ends(ix_view(content@, links@), name@, dir),
{
    let mut r = EdgeRepresentation::Result;
    let mut ends: Vec<String> = Vec::new();
    let n = links.len();
    let mut i: usize = 0;
    while i < n
        invariant
            n == links@.len(),
            i <= n,
            all_valid(content@, links@),
            r == edge_repr(ix_view(content@, links@.take(i as int)), name@, dir),
            texts(ends@) == edge_ends(ix_view(content@, links@.take(i as int)), name@, dir),
        decreases n - i,
    {
        assert(valid_ix(content@, links@[i as int]));
        let (p, e) = link_ref(content, links[i]);
        assert(ix_view(content@, links@.take(i + 1)).drop_last() =~= ix_view(content@, links@.take(i as int)));
        let (x, q) = match dir {
            Direction::Forward => (&p.target, &p.outgoing_quantity),
            Direction::Backwards => (&p.source, &p.incoming_quantity),
        };
        if str_equal(e.name.as_str(), name) {
            r = EdgeRepresentation::from_bounds(&q.bounds).most_inclusive(r);
            if !contains_text(&ends, x.as_str()) {
                let ghost before = texts(ends@);
                ends.push(x.clone());
                assert(texts(ends@) =~= before.push(x@));
            }
        }
        i = i + 1;
    }
    assert(links@.take(n as int) =~= links@);
    (r, ends)
}

/// The start of a generated getter: its signature, with the name `fname` and the return
/// type `ret`, up to the graph it reads.
pub open spec fn getter_head(fname: Seq<char>, sn: Seq<char>, ret: Seq<char>) -> Seq<char> {
    "\n   pub fn "@ + fname + "<'a, EK>(&'a self, g: &'a TypedGraph<NK, EK, "@ + sn + "<NK, EK>>) -> "@ + ret
        + "\n   where\n       NK: Key,\n       EK: Key,\n   {\n       Ok(g\n"@
}

/// The line of a generated getter that picks the edges matching `pattern` in direction `dir`.
pub open spec fn filter_line(dir: Direction, pattern: Seq<char>) -> Seq<char> {
    "           .get_"@ + spec_search_dir(dir) + "_filter(self.get_id(), |e| matches!(e.get_type(), "@ + pattern
        + "))?\n"@
}

/// The end of a generated getter: the results collected as `r`, and the closing lines.
pub open spec fn getter_tail(r: EdgeRepresentation, names: Seq<char>) -> Seq<char> {
    spec_collect_results_rust(r, names) + "       )\n   }\n"@
}

/// A reference to the node type `name`.
pub open spec fn node_ref(name: Seq<char>) -> Seq<char> {
    "&'a "@ + name + "<NK>"@
}

/// The start of a downcast of an edge weight to the edge type `edge`.
pub open spec fn downcast_edge(edge: Seq<char>, sn: Seq<char>) -> Seq<char> {
    "Downcast::<_, _, &'a "@ + edge + "<EK>, "@ + sn + "<NK, EK>>::downcast("@
}

/// The name of a getter: the snake case of the name an attribute gives, or `default`.
pub open spec fn getter_name(rename: Option<Seq<char>>, default: Seq<char>) -> Seq<char> {
    match rename {
        Some(n) => snake_text(n),
        None => default,
    }
}

/// `get_<name>_<suffix>`, the getter name used when no attribute renames it.
pub open spec fn default_getter_name(name: Seq<char>, dir: Direction) -> Seq<char> {
    "get_"@ + snake_text(name) + "_"@ + spec_function_suffix(dir)
}

/// The names of some edges.
pub open spec fn edge_names(es: Seq<EdgeExp>) -> Seq<Seq<char>> {
    es.map_values(|e: EdgeExp| e.name@)
}

/// The getter of the node `node` for the nodes `end` it reaches in direction `dir`,
/// through the edges `group` (one for each endpoint from `node` to `end`).
pub open spec fn node_getter(
    c: Seq<SchemaStm>,
    node: Seq<char>,
    end: Seq<char>,
    dir: Direction,
    sn: Seq<char>,
    group: Seq<EdgeExp>,
) -> Seq<char> {
    let only = group.len() == 1;
    let out_ty = if only {
        group[0].name@
    } else {
        "Edge"@
    };
    let repr = group_repr(group, node, end, dir);
    let fname = getter_name(
        node_rename(c, node, end, spec_rename_attribute_name(dir)),
        default_getter_name(end, dir),
    );
    let patterns = join_texts(wrap_texts(edge_names(group), "EdgeType::"@, ""@), " | "@);
    let names = join_texts(edge_names(group), ", "@);
    getter_head(fname, sn, spec_return_type_rust(repr, out_ty, node_ref(end), sn)) + filter_line(dir, patterns)
        + "           .filter_map(|e| Some((e.get_weight(), g.get_node_downcast(e.get_outer()).ok()?)))\n"@
        + (if only {
        "           .map(|(e, n)| ("@ + downcast_edge(out_ty, sn) + "e).unwrap(), n))\n"@
    } else {
        Seq::empty()
    }) + getter_tail(repr, names)
}

/// The type of the nodes a getter of an edge type hands back, for the target nodes
/// `ends`, and whether the node is downcast to it.
pub open spec fn target_type(ends: Seq<Seq<char>>) -> (Seq<char>, bool) {
    if ends.len() == 1 {
        (node_ref(ends[0]), true)
    } else if ends.len() < 10 {
        (
            "Either"@ + decimal_text(ends.len()) + "<"@ + join_texts(wrap_texts(ends, "&'a "@, "<NK>"@), ", "@)
                + ">"@,
            true,
        )
    } else {
        (node_ref("Node"@), false)
    }
}

/// The text of a getter of the edge type `name` in direction `dir`, named `fname`,
/// returning `ret`, whose nodes are downcast when `downcast` is set.
pub open spec fn edge_getter_text(
    fname: Seq<char>,
    sn: Seq<char>,
    ret: Seq<char>,
    name: Seq<char>,
    dir: Direction,
    downcast: bool,
    repr: EdgeRepresentation,
) -> Seq<char> {
    getter_head(fname, sn, ret) + filter_line(dir, "EdgeType::"@ + name) + "           .map(|e| ("@
        + downcast_edge(name, sn) + "e.get_weight()).unwrap(), "@ + (if downcast {
        "g.get_node_downcast"@
    } else {
        "g.get_node"@
    }) + "(e.get_outer()).unwrap()))\n"@ + getter_tail(repr, name)
}

/// The getter of the edge type of the link `i` among the links `ls` leading from a node in
/// direction `dir`.
pub open spec fn edge_getter(ls: Seq<Link>, i: int, dir: Direction, sn: Seq<char>) -> Seq<char> {
    let edge = ls[i].1;
    let name = edge.name@;
    let repr = edge_repr(ls, name, dir);
    let tt = target_type(edge_ends(ls, name, dir));
    let fname = getter_name(
        first_key_value(edge.attributes.key_values@, spec_rename_attribute_name(dir)),
        default_getter_name(name, dir),
    );
    edge_getter_text(fname, sn, spec_return_type_rust(repr, name, tt.0, sn), name, dir, tt.1, repr)
}

/// The getter of the endpoint of the link `i` among the links `ls` leading from a node in
/// direction `dir`.
pub open spec fn endpoint_getter(ls: Seq<Link>, i: int, dir: Direction, sn: Seq<char>) -> Seq<char> {
    let p = ls[i].0;
    let name = ls[i].1.name@;
    let target = end_of(p, dir);
    let repr = spec_from_bounds(quantity_of(p, dir));
    let fname = getter_name(
        first_key_value(p.attributes.key_values@, spec_rename_attribute_name(dir)),
        "get_"@ + snake_text(target) + "_via_"@ + snake_text(name) + "_"@ + spec_function_suffix(dir),
    );
    getter_head(fname, sn, spec_return_type_rust(repr, name, node_ref(target), sn)) + filter_line(
        dir,
        "EdgeType::"@ + name,
    ) + "           .map(|e| ("@ + downcast_edge(name, sn)
        + "e.get_weight()).unwrap(), g.get_node_downcast(e.get_outer()).unwrap()))\n"@ + getter_tail(repr, name)
}

/// No link before `i` has the edge type of link `i`.
pub open spec fn first_of_edge(ls: Seq<Link>, i: int) -> bool {
    forall|j: int| 0 <= j < i ==> ls[j].1.name@ != ls[i].1.name@
}

/// No link before `i` has the source and the target of link `i`.
pub open spec fn first_of_pair(ls: Seq<Link>, i: int) -> bool {
    forall|j: int| 0 <= j < i ==> !(ls[j].0.source@ == ls[i].0.source@ && ls[j].0.target@ == ls[i].0.target@)
}

/// The getters of the edge types among the first `k` links, one for each edge type.
pub open spec fn edge_getters(ls: Seq<Link>, dir: Direction, sn: Seq<char>, k: nat) -> Seq<char>
    decreases k,
{
    if k == 0 {
        Seq::empty()
    } else {
        edge_getters(ls, dir, sn, (k - 1) as nat) + if first_of_edge(ls, k - 1) {
            edge_getter(ls, k - 1, dir, sn)
        } else {
            Seq::empty()
        }
    }
}

/// The getters of the endpoints among the first `k` links, one for each pair of nodes.
pub open spec fn endpoint_getters(ls: Seq<Link>, dir: Direction, sn: Seq<char>, k: nat) -> Seq<char>
    decreases k,
{
    if k == 0 {
        Seq::empty()
    } else {
        endpoint_getters(ls, dir, sn, (k - 1) as nat) + if first_of_pair(ls, k - 1) {
            endpoint_getter(ls, k - 1, dir, sn)
        } else {
            Seq::empty()
        }
    }
}

/// The getters of the node `node` for the nodes it reaches, one for each of them, in the
/// order of their names.
pub open spec fn node_getters(c: Seq<SchemaStm>, node: Seq<char>, dir: Direction, sn: Seq<char>, ls: Seq<Link>) -> Seq<
    char,
> {
    concat_map(
        sorted_names(end_names(ls, dir)),
        |end: Seq<char>| node_getter(c, node, end, dir, sn, link_edges(links_at(ls, end, dir, false))),
    )
}

/// All getters of the node `node` in direction `dir`.
pub open spec fn dir_block(c: Seq<SchemaStm>, node: Seq<char>, dir: Direction, sn: Seq<char>) -> Seq<char> {
    let ls = links_from(all_links(c), node, dir);
    node_getters(c, node, dir, sn, ls) + edge_getters(ls, dir, sn, ls.len()) + endpoint_getters(
        ls,
        dir,
        sn,
        ls.len(),
    )
}

/// The impl block of getters generated for the node `node` of a schema.
pub open spec fn node_block(c: Seq<SchemaStm>, node: Seq<char>, sn: Seq<char>) -> Seq<char> {
    "\n#[allow(unused)]\nimpl<NK> "@ + node + "<NK> {\n"@ + dir_block(c, node, Direction::Forward, sn) + dir_block(
        c,
        node,
        Direction::Backwards,
        sn,
    ) + "}\n"@
}

fn write_getter_head(s: &mut String, fname: &str, sn: &str, ret: &str)
    ensures
        final(s)@ == old(s)@ + getter_head(fname@, sn@, ret@),
{
    let ghost s0 = s@;
    s.append("\n   pub fn ");
    s.append(fname);
    s.append("<'a, EK>(&'a self, g: &'a TypedGraph<NK, EK, ");
    s.append(sn);
    s.append("<NK, EK>>) -> ");
    s.append(ret);
    s.append("\n   where\n       NK: Key,\n       EK: Key,\n   {\n       Ok(g\n");
    assert(s@ =~= s0 + getter_head(fname@, sn@, ret@));
}

fn write_filter_line(s: &mut String, dir: Direction, pattern: &str)
    ensures
        final(s)@ == old(s)@ + filter_line(dir, pattern@),
{
    let ghost s0 = s@;
    s.append("           .get_");
    s.append(search_dir(dir));
    s.append("_filter(self.get_id(), |e| matches!(e.get_type(), ");
    s.append(pattern);
    s.append("))?\n");
    assert(s@ =~= s0 + filter_line(dir, pattern@));
}

fn write_getter_tail(s: &mut String, r: EdgeRepresentation, names: &str)
    ensures
        final(s)@ == old(s)@ + getter_tail(r, names@),
{
    let ghost s0 = s@;
    let _ = r.collect_results_rust(names, s);
    s.append("       )\n   }\n");
    assert(s@ =~= s0 + getter_tail(r, names@));
}

fn write_downcast_edge(s: &mut String, edge: &str, sn: &str)
    ensures
        final(s)@ == old(s)@ + downcast_edge(edge@, sn@),
{
    let ghost s0 = s@;
    s.append("Downcast::<_, _, &'a ");
    s.append(edge);
    s.append("<EK>, ");
    s.append(sn);
    s.append("<NK, EK>>::downcast(");
    assert(s@ =~= s0 + downcast_edge(edge@, sn@));
}

fn node_ref_of(name: &str) -> (r: String)
    ensures
        r@ == node_ref(name@),
{
    let mut r = String::from_str("&'a ");
    r.append(name);
    r.append("<NK>");
    r
}

pub(crate) fn default_name_of(name: &str, dir: Direction) -> (r: String)
    ensures
        r@ == default_getter_name(name@, dir),
{
    let mut r = String::from_str("get_");
    let snake = to_snake_case(name);
    r.append(snake.as_str());
    r.append("_");
    r.append(function_suffix(dir));
    r
}

pub(crate) fn getter_name_of(rename: Option<&String>, default: String) -> (r: String)
    ensures
        r@ == getter_name(
            match rename {
                Some(n) => Some(n@),
                None => None,
            },
            default@,
        ),
{
    match rename {
        Some(n) => to_snake_case(n.as_str()),
        None => default,
    }
}

#[verifier::rlimit(40)]
fn write_node_getter(
    s: &mut String,
    content: &Vec<SchemaStm>,
    node: &str,
    end: &str,
    dir: Direction,
    sn: &str,
    group: &Vec<(usize, usize)>,
)
    requires
        all_valid(content@, group@),
    ensures
        final(s)@ == old(s)@ + node_getter(content@, node@, end@, dir, sn@, link_edges(ix_view(content@, group@))),
{
    let ghost s0 = s@;
    let ghost g = link_edges(ix_view(content@, group@));
    let mut names: Vec<String> = Vec::new();
    let n = group.len();
    let mut i: usize = 0;
    while i < n
        invariant
            n == group@.len(),
            i <= n,
            all_valid(content@, group@),
            texts(names@) == edge_names(link_edges(ix_view(content@, group@.take(i as int)))),
        decreases n - i,
    {
        assert(valid_ix(content@, group@[i as int]));
        let (_p, e) = link_ref(content, group[i]);
        let ghost before = texts(names@);
        names.push(e.name.clone());
        assert(texts(names@) =~= before.push(e.name@));
        assert(edge_names(link_edges(ix_view(content@, group@.take(i + 1)))) =~= before.push(e.name@));
        i = i + 1;
    }
    assert(group@.take(n as int) =~= group@);
    assert(texts(names@) == edge_names(g));
    let only = n == 1;
    let out_ty = if only {
        names[0].clone()
    } else {
        String::from_str("Edge")
    };
    let repr = group_repr_of(content, group, node, end, dir);
    let rename = match find_last_node(content, node) {
        Some(x) => find_rename(&x.attributes.functions, rename_attribute_name(dir), end),
        None => None,
    };
    let fname = getter_name_of(rename, default_name_of(end, dir));
    let target = node_ref_of(end);
    let ret = repr.get_return_type_rust(out_ty.as_str(), target.as_str(), sn);
    let patterns = join_wrapped(&names, "EdgeType::", "", " | ");
    let name_list = join_strings(&names, ", ");
    write_getter_head(s, fname.as_str(), sn, ret.as_str());
    let ghost s1 = s@;
    write_filter_line(s, dir, patterns.as_str());
    let ghost s2 = s@;
    s.append("           .filter_map(|e| Some((e.get_weight(), g.get_node_downcast(e.get_outer()).ok()?)))\n");
    let ghost mid = s@;
    if only {
        s.append("           .map(|(e, n)| (");
        write_downcast_edge(s, out_ty.as_str(), sn);
        s.append("e).unwrap(), n))\n");
    }
    let ghost mid2 = s@;
    write_getter_tail(s, repr, name_list.as_str());
    proof {
        let head = getter_head(fname@, sn@, ret@);
        let filt = filter_line(dir, patterns@);
        let lit = "           .filter_map(|e| Some((e.get_weight(), g.get_node_downcast(e.get_outer()).ok()?)))\n"@;
        let opt = if only {
            "           .map(|(e, n)| ("@ + downcast_edge(out_ty@, sn@) + "e).unwrap(), n))\n"@
        } else {
            Seq::<char>::empty()
        };
        let tail = getter_tail(repr, name_list@);
        assert(mid2 =~= mid + opt);
        assert(s@ =~= s0 + (head + filt + lit + opt + tail));
        assert(g.len() == n);
        assert(node_getter(content@, node@, end@, dir, sn@, g) == head + filt + lit + opt + tail);
    }
}

#[verifier::rlimit(40)]
fn write_getter_with_node(
    s: &mut String,
    content: &Vec<SchemaStm>,
    node: &str,
    dir: Direction,
    sn: &str,
    ls: &Vec<(usize, usize)>,
)
    requires
        all_valid(content@, ls@),
    ensures
        final(s)@ == old(s)@ + node_getters(content@, node@, dir, sn@, ix_view(content@, ls@)),
{
    let ghost lv = ix_view(content@, ls@);
    let ghost f = |end: Seq<char>| node_getter(content@, node@, end, dir, sn@, link_edges(links_at(lv, end, dir, false)));
    let ends = sorted_end_names(content, ls, dir);
    let ghost es = texts(ends@);
    let n = ends.len();
    let mut i: usize = 0;
    while i < n
        invariant
            n == ends@.len(),
            es == texts(ends@),
            lv == ix_view(content@, ls@),
            f == (|end: Seq<char>| node_getter(content@, node@, end, dir, sn@, link_edges(links_at(lv, end, dir, false)))),
            all_valid(content@, ls@),
            i <= n,
            s@ == old(s)@ + concat_map(es.subrange(0, i as int), f),
        decreases n - i,
    {
        proof {
            lemma_concat_map_step(es, i as int, f);
        }
        let group = filter_links(content, ls, ends[i].as_str(), dir, false);
        let ghost before = s@;
        write_node_getter(s, content, node, ends[i].as_str(), dir, sn, &group);
        assert(es[i as int] == ends@[i as int]@);
        assert(s@ =~= before + f(es[i as int]));
        i = i + 1;
    }
    proof {
        lemma_concat_map_all(es, f);
    }
}

fn target_type_of(ends: &Vec<String>) -> (r: (String, bool))
    ensures
        (r.0@, r.1) == target_type(texts(ends@)),
{
    let n = ends.len();
    if n == 1 {
        (node_ref_of(ends[0].as_str()), true)
    } else if n < 10 {
        let mut r = String::from_str("Either");
        write_decimal(&mut r, n as u64);
        r.append("<");
        let j = join_wrapped(ends, "&'a ", "<NK>", ", ");
        r.append(j.as_str());
        r.append(">");
        (r, true)
    } else {
        (node_ref_of("Node"), false)
    }
}

pub(crate) fn is_first_edge(content: &Vec<SchemaStm>, ls: &Vec<(usize, usize)>, i: usize) -> (r: bool)
    requires
        all_valid(content@, ls@),
        i < ls@.len(),
    ensures
        r == first_of_edge(ix_view(content@, ls@), i as int),
{
    assert(valid_ix(content@, ls@[i as int]));
    let (_p, e) = link_ref(content, ls[i]);
    let mut j: usize = 0;
    while j < i
        invariant
            i < ls@.len(),
            all_valid(content@, ls@),
            (*_p, *e) == ix_view(content@, ls@)[i as int],
            j <= i,
            forall|k: int| 0 <= k < j ==> ix_view(content@, ls@)[k].1.name@ != e.name@,
        decreases i - j,
    {
        assert(valid_ix(content@, ls@[j as int]));
        let (_q, f) = link_ref(content, ls[j]);
        assert(ix_view(content@, ls@)[j as int] == link_at(content@, ls@[j as int]));
        if str_equal(f.name.as_str(), e.name.as_str()) {
            assert(ix_view(content@, ls@)[j as int].1.name@ == ix_view(content@, ls@)[i as int].1.name@);
            return false;
        }
        j = j + 1;
    }
    true
}

pub(crate) fn is_first_pair(content: &Vec<SchemaStm>, ls: &Vec<(usize, usize)>, i: usize) -> (r: bool)
    requires
        all_valid(content@, ls@),
        i < ls@.len(),
    ensures
        r == first_of_pair(ix_view(content@, ls@), i as int),
{
    assert(valid_ix(content@, ls@[i as int]));
    let (p, _e) = link_ref(content, ls[i]);
    let mut j: usize = 0;
    while j < i
        invariant
            i < ls@.len(),
            all_valid(content@, ls@),
            (*p, *_e) == ix_view(content@, ls@)[i as int],
            j <= i,
            forall|k: int|
                0 <= k < j ==> !(ix_view(content@, ls@)[k].0.source@ == p.source@ && ix_view(content@, ls@)[k].0.target@
                    == p.target@),
        decreases i - j,
    {
        assert(valid_ix(content@, ls@[j as int]));
        let (q, _f) = link_ref(content, ls[j]);
        assert(ix_view(content@, ls@)[j as int] == link_at(content@, ls@[j as int]));
        if str_equal(q.source.as_str(), p.source.as_str()) && str_equal(q.target.as_str(), p.target.as_str()) {
            assert(ix_view(content@, ls@)[j as int].0.source@ == ix_view(content@, ls@)[i as int].0.source@);
            return false;
        }
        j = j + 1;
    }
    true
}

fn write_edge_getter_text(
    s: &mut String,
    fname: &str,
    sn: &str,
    ret: &str,
    name: &str,
    dir: Direction,
    downcast: bool,
    repr: EdgeRepresentation,
)
    ensures
        final(s)@ == old(s)@ + edge_getter_text(fname@, sn@, ret@, name@, dir, downcast, repr),
{
    let ghost s0 = s@;
    let mut pattern = String::from_str("EdgeType::");
    pattern.append(name);
    write_getter_head(s, fname, sn, ret);
    write_filter_line(s, dir, pattern.as_str());
    let ghost mid = s@;
    s.append("           .map(|e| (");
    write_downcast_edge(s, name, sn);
    s.append("e.get_weight()).unwrap(), ");
    let ghost mid2 = s@;
    if downcast {
        s.append("g.get_node_downcast");
    } else {
        s.append("g.get_node");
    }
    let ghost mid3 = s@;
    s.append("(e.get_outer()).unwrap()))\n");
    let ghost mid4 = s@;
    write_getter_tail(s, repr, name);
    proof {
        let pick = if downcast {
            "g.get_node_downcast"@
        } else {
            "g.get_node"@
        };
        let head = getter_head(fname@, sn@, ret@);
        let filt = filter_line(dir, "EdgeType::"@ + name@);
        let map_line = "           .map(|e| ("@ + downcast_edge(name@, sn@) + "e.get_weight()).unwrap(), "@ + pick
            + "(e.get_outer()).unwrap()))\n"@;
        let tail = getter_tail(repr, name@);
        assert(mid3 =~= mid2 + pick);
        assert(mid4 =~= mid + map_line);
        assert(s@ =~= s0 + (head + filt + map_line + tail));
    }
}

fn write_edge_getter(s: &mut String, content: &Vec<SchemaStm>, ls: &Vec<(usize, usize)>, i: usize, dir: Direction, sn: &str)
    requires
        all_valid(content@, ls@),
        i < ls@.len(),
    ensures
        final(s)@ == old(s)@ + edge_getter(ix_view(content@, ls@), i as int, dir, sn@),
{
    assert(valid_ix(content@, ls@[i as int]));
    let (_p, e) = link_ref(content, ls[i]);
    assert(ix_view(content@, ls@)[i as int].1 == *e);
    let (repr, ends) = edge_summary(content, ls, e.name.as_str(), dir);
    let (tt, downcast) = target_type_of(&ends);
    let rename = find_key_value(&e.attributes.key_values, rename_attribute_name(dir));
    let fname = getter_name_of(rename, default_name_of(e.name.as_str(), dir));
    let ret = repr.get_return_type_rust(e.name.as_str(), tt.as_str(), sn);
    write_edge_getter_text(s, fname.as_str(), sn, ret.as_str(), e.name.as_str(), dir, downcast, repr);
}

fn write_endpoint_getter(
    s: &mut String,
    content: &Vec<SchemaStm>,
    ls: &Vec<(usize, usize)>,
    i: usize,
    dir: Direction,
    sn: &str,
)
    requires
        all_valid(content@, ls@),
        i < ls@.len(),
    ensures
        final(s)@ == old(s)@ + endpoint_getter(ix_view(content@, ls@), i as int, dir, sn@),
{
    let ghost s0 = s@;
    assert(valid_ix(content@, ls@[i as int]));
    let (p, e) = link_ref(content, ls[i]);
    let (target, q) = match dir {
        Direction::Forward => (&p.target, &p.outgoing_quantity),
        Direction::Backwards => (&p.source, &p.incoming_quantity),
    };
    let repr = EdgeRepresentation::from_bounds(&q.bounds);
    let mut default = String::from_str("get_");
    default.append(to_snake_case(target.as_str()).as_str());
    default.append("_via_");
    default.append(to_snake_case(e.name.as_str()).as_str());
    default.append("_");
    default.append(function_suffix(dir));
    let rename = find_key_value(&p.attributes.key_values, rename_attribute_name(dir));
    let fname = getter_name_of(rename, default);
    let t = node_ref_of(target.as_str());
    let ret = repr.get_return_type_rust(e.name.as_str(), t.as_str(), sn);
    let mut pattern = String::from_str("EdgeType::");
    pattern.append(e.name.as_str());
    write_getter_head(s, fname.as_str(), sn, ret.as_str());
    write_filter_line(s, dir, pattern.as_str());
    let ghost mid = s@;
    s.append("           .map(|e| (");
    write_downcast_edge(s, e.name.as_str(), sn);
    s.append("e.get_weight()).unwrap(), g.get_node_downcast(e.get_outer()).unwrap()))\n");
    let ghost mid2 = s@;
    write_getter_tail(s, repr, e.name.as_str());
    proof {
        assert(mid2 =~= mid + ("           .map(|e| ("@ + downcast_edge(e.name@, sn@)
            + "e.get_weight()).unwrap(), g.get_node_downcast(e.get_outer()).unwrap()))\n"@));
        assert(s@ =~= s0 + endpoint_getter(ix_view(content@, ls@), i as int, dir, sn@));
    }
}

#[verifier::rlimit(40)]
fn write_getter_with_edge(s: &mut String, content: &Vec<SchemaStm>, ls: &Vec<(usize, usize)>, dir: Direction, sn: &str)
    requires
        all_valid(content@, ls@),
    ensures
        final(s)@ == old(s)@ + edge_getters(ix_view(content@, ls@), dir, sn@, ls@.len()),
{
    let n = ls.len();
    let mut i: usize = 0;
    while i < n
        invariant
            n == ls@.len(),
            i <= n,
            all_valid(content@, ls@),
            s@ == old(s)@ + edge_getters(ix_view(content@, ls@), dir, sn@, i as nat),
        decreases n - i,
    {
        let ghost before = s@;
        if is_first_edge(content, ls, i) {
            write_edge_getter(s, content, ls, i, dir, sn);
        } else {
            assert(s@ =~= before + Seq::<char>::empty());
        }
        i = i + 1;
    }
}

#[verifier::rlimit(40)]
fn write_getter_with_node_and_edge(s: &mut String, content: &Vec<SchemaStm>, ls: &Vec<(usize, usize)>, dir: Direction, sn: &str)
    requires
        all_valid(content@, ls@),
    ensures
        final(s)@ == old(s)@ + endpoint_getters(ix_view(content@, ls@), dir, sn@, ls@.len()),
{
    let n = ls.len();
    let mut i: usize = 0;
    while i < n
        invariant
            n == ls@.len(),
            i <= n,
            all_valid(content@, ls@),
            s@ == old(s)@ + endpoint_getters(ix_view(content@, ls@), dir, sn@, i as nat),
        decreases n - i,
    {
        let ghost before = s@;
        if is_first_pair(content, ls, i) {
            write_endpoint_getter(s, content, ls, i, dir, sn);
        } else {
            assert(s@ =~= before + Seq::<char>::empty());
        }
        i = i + 1;
    }
}

#[verifier::rlimit(40)]
#[verifier::spinoff_prover]
fn write_dir_block(
    s: &mut String,
    content: &Vec<SchemaStm>,
    all: &Vec<(usize, usize)>,
    node: &str,
    dir: Direction,
    sn: &str,
)
    requires
        all_valid(content@, all@),
        ix_view(content@, all@) == all_links(content@),
    ensures
        final(s)@ == old(s)@ + dir_block(content@, node@, dir, sn@),
{
    let ghost s0 = s@;
    let ls = filter_links(content, all, node, dir, true);
    write_getter_with_node(s, content, node, dir, sn, &ls);
    write_getter_with_edge(s, content, &ls, dir, sn);
    write_getter_with_node_and_edge(s, content, &ls, dir, sn);
    assert(s@ =~= s0 + dir_block(content@, node@, dir, sn@));
}

/// The files after the getter block of each node in `nodes` was added to its file, in order.
pub open spec fn add_node_blocks(
    files: Map<Seq<char>, Option<Seq<char>>>,
    nodes: Seq<Seq<char>>,
    c: Seq<SchemaStm>,
    sn: Seq<char>,
    folder: Seq<char>,
) -> Map<Seq<char>, Option<Seq<char>>>
    decreases nodes.len(),
{
    if nodes.len() == 0 {
        files
    } else {
        spec_add_content(
            add_node_blocks(files, nodes.drop_last(), c, sn, folder),
            spec_join_path(folder, snake_text(nodes.last()) + ".rs"@),
            node_block(c, nodes.last(), sn),
        )
    }
}

/// The files after the getters of each node at an end of an edge were added to the
/// node's file in `folder`, the nodes taken in the order of their names.
pub open spec fn endpoint_files(
    files: Map<Seq<char>, Option<Seq<char>>>,
    schema: Schema,
    folder: Seq<char>,
) -> Map<Seq<char>, Option<Seq<char>>> {
    let c = schema.content@;
    add_node_blocks(files, sorted_names(link_names(all_links(c))), c, dots_to_underscores(schema.version@), folder)
}

/// Add to the file of each node at an end of an edge the getters of the nodes and edges
/// it reaches, in both directions.
pub fn write_edge_endpoints(schema: &Schema, new_files: &mut GeneratedCode, nodes_folder: &str)
    ensures
        final(new_files)@ == endpoint_files(old(new_files)@, *schema, nodes_folder@),
{
    let content = &schema.content;
    let sn = replace_dots(schema.version.as_str());
    let all = gather_links(content);
    let nodes = sorted_link_names(content, &all);
    let ghost ns = texts(nodes@);
    let n = nodes.len();
    let mut i: usize = 0;
    while i < n
        invariant
            n == nodes@.len(),
            ns == texts(nodes@),
            i <= n,
            all_valid(content@, all@),
            ix_view(content@, all@) == all_links(content@),
            sn@ == dots_to_underscores(schema.version@),
            new_files@ == add_node_blocks(old(new_files)@, ns.take(i as int), content@, sn@, nodes_folder@),
        decreases n - i,
    {
        let node = nodes[i].as_str();
        let mut block = String::from_str("\n#[allow(unused)]\nimpl<NK> ");
        block.append(node);
        block.append("<NK> {\n");
        let ghost b0 = block@;
        write_dir_block(&mut block, content, &all, node, Direction::Forward, sn.as_str());
        write_dir_block(&mut block, content, &all, node, Direction::Backwards, sn.as_str());
        block.append("}\n");
        assert(block@ =~= node_block(content@, node@, sn@));
        let mut file = to_snake_case(node);
        file.append(".rs");
        let path = join_path(nodes_folder, file.as_str());
        new_files.add_content(path, block);
        assert(ns.take(i + 1).drop_last() =~= ns.take(i as int));
        assert(ns.take(i + 1).last() == node@);
        i = i + 1;
    }
    assert(ns.take(n as int) =~= ns);
}


/// The endpoint `p` leads from `node` to the nodes `end` in the direction `dir`.
pub open spec fn covers(p: EndPoint, node: Seq<char>, end: Seq<char>, dir: Direction) -> bool {
    start_of(p, dir) == node && end_of(p, dir) == end
}

proof fn lemma_fold_eps_bounds(
    r: EdgeRepresentation,
    eps: Seq<EndPoint>,
    node: Seq<char>,
    end: Seq<char>,
    dir: Direction,
)
    ensures
        rank(fold_eps(r, eps, node, end, dir)) >= rank(r),
        forall|j: int|
            0 <= j < eps.len() && covers(#[trigger] eps[j], node, end, dir) ==> rank(
                fold_eps(r, eps, node, end, dir),
            ) >= rank(spec_from_bounds(quantity_of(eps[j], dir))),
        fold_eps(r, eps, node, end, dir) == r || exists|j: int|
            0 <= j < eps.len() && covers(#[trigger] eps[j], node, end, dir) && fold_eps(r, eps, node, end, dir)
                == spec_from_bounds(quantity_of(eps[j], dir)),
    decreases eps.len(),
{
    if eps.len() > 0 {
        let t = eps.drop_last();
        lemma_fold_eps_bounds(r, t, node, end, dir);
        let f = fold_eps(r, eps, node, end, dir);
        let f1 = fold_eps(r, t, node, end, dir);
        assert forall|j: int|
            0 <= j < eps.len() && covers(#[trigger] eps[j], node, end, dir) implies rank(f) >= rank(
                spec_from_bounds(quantity_of(eps[j], dir)),
            ) by {
            if j < t.len() {
                assert(t[j] == eps[j]);
            }
        }
        if f != r {
            if f == f1 {
                let j = choose|j: int|
                    0 <= j < t.len() && covers(#[trigger] t[j], node, end, dir) && f1 == spec_from_bounds(
                        quantity_of(t[j], dir),
                    );
                assert(eps[j] == t[j]);
            } else {
                assert(covers(eps[eps.len() - 1], node, end, dir));
            }
        }
    }
}

/// The getter from `node` to the nodes `end` is as inclusive as the most inclusive
/// endpoint it covers, and no more: its representation ranks at least as high as that of
/// every endpoint of the edges `group` leading from `node` to `end`, and it is that of one
/// of them, or `Result` when there is none. So it does not depend on the order of the edges.
pub proof fn law_group_repr_most_inclusive(group: Seq<EdgeExp>, node: Seq<char>, end: Seq<char>, dir: Direction)
    ensures
        forall|i: int, j: int|
            0 <= i < group.len() && 0 <= j < group[i].endpoints@.len() && covers(
                #[trigger] group[i].endpoints@[j],
                node,
                end,
                dir,
            ) ==> rank(group_repr(group, node, end, dir)) >= rank(
                spec_from_bounds(quantity_of(group[i].endpoints@[j], dir)),
            ),
        group_repr(group, node, end, dir) == EdgeRepresentation::Result || exists|i: int, j: int|
            0 <= i < group.len() && 0 <= j < group[i].endpoints@.len() && covers(
                #[trigger] group[i].endpoints@[j],
                node,
                end,
                dir,
            ) && group_repr(group, node, end, dir) == spec_from_bounds(quantity_of(group[i].endpoints@[j], dir)),
    decreases group.len(),
{
    if group.len() > 0 {
        let t = group.drop_last();
        law_group_repr_most_inclusive(t, node, end, dir);
        let r1 = group_repr(t, node, end, dir);
        let eps = group.last().endpoints@;
        lemma_fold_eps_bounds(r1, eps, node, end, dir);
        let g = group_repr(group, node, end, dir);
        assert(g == fold_eps(r1, eps, node, end, dir));
        assert forall|i: int, j: int|
            0 <= i < group.len() && 0 <= j < group[i].endpoints@.len() && covers(
                #[trigger] group[i].endpoints@[j],
                node,
                end,
                dir,
            ) implies rank(g) >= rank(spec_from_bounds(quantity_of(group[i].endpoints@[j], dir))) by {
            if i < t.len() {
                assert(t[i] == group[i]);
                assert(covers(t[i].endpoints@[j], node, end, dir));
            } else {
                assert(covers(eps[j], node, end, dir));
            }
        }
        if g != EdgeRepresentation::Result {
            if g == r1 {
                let (i, j) = choose|i: int, j: int|
                    0 <= i < t.len() && 0 <= j < t[i].endpoints@.len() && covers(
                        #[trigger] t[i].endpoints@[j],
                        node,
                        end,
                        dir,
                    ) && r1 == spec_from_bounds(quantity_of(t[i].endpoints@[j], dir));
                assert(t[i] == group[i]);
                assert(covers(group[i].endpoints@[j], node, end, dir));
            } else {
                let j = choose|j: int|
                    0 <= j < eps.len() && covers(#[trigger] eps[j], node, end, dir) && g == spec_from_bounds(
                        quantity_of(eps[j], dir),
                    );
                assert(group[group.len() - 1].endpoints@[j] == eps[j]);
                assert(covers(group[group.len() - 1].endpoints@[j], node, end, dir));
            }
        }
    }
}
} // verus!
