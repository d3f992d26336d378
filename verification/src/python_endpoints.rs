use vstd::prelude::*;
use vstd::string::*;

use crate::direction::{
    function_suffix, rename_attribute_name, search_dir, spec_function_suffix, spec_rename_attribute_name,
    spec_search_dir, Direction,
};
use crate::edge_representation::{
    spec_collect_results_python, spec_from_bounds, spec_return_type_python, EdgeRepresentation,
};
use crate::generated_code::{spec_add_content, GeneratedCode};
use crate::ordering::{insert_sorted, lemma_sorted_names, sorted_names, strictly_sorted};
use crate::paths::{join_path, spec_join_path};
use crate::project::str_equal;
use crate::rust_endpoints::{
    all_links, all_valid, default_getter_name, default_name_of, edge_ends, edge_names, edge_repr, edge_summary,
    end_names, end_of, filter_links, find_key_value, find_last_node, find_rename, first_key_value, first_of_edge,
    first_of_pair, gather_links, getter_name, getter_name_of, group_repr, group_repr_of, is_first_edge,
    is_first_pair, ix_view, link_at, link_edges, link_names, link_ref, links_at, links_from, node_rename,
    quantity_of, sorted_end_names, sorted_link_names, start_of, valid_ix, Link,
};
use crate::schema::{EdgeExp, EndPoint, Schema, SchemaStm};
use crate::text::{
    concat_map, dots_to_underscores, join_strings, join_texts, join_wrapped, lemma_concat_map_all,
    lemma_concat_map_step, replace_dots, snake_text, texts, to_snake_case, wrap_texts,
};

verus! {

/// How many endpoints of `eps` start at `node` in direction `dir`.
pub open spec fn starts_count(eps: Seq<EndPoint>, node: Seq<char>, dir: Direction) -> nat
    decreases eps.len(),
{
    if eps.len() == 0 {
        0
    } else {
        starts_count(eps.drop_last(), node, dir) + if start_of(eps.last(), dir) == node {
            1nat
        } else {
            0nat
        }
    }
}

/// How many endpoints of the edges `group` start at `node`, each edge counted as often as it occurs.
pub open spec fn group_starts(group: Seq<EdgeExp>, node: Seq<char>, dir: Direction) -> nat
    decreases group.len(),
{
    if group.len() == 0 {
        0
    } else {
        group_starts(group.drop_last(), node, dir) + starts_count(group.last().endpoints@, node, dir)
    }
}

/// The names of the node statements.
pub open spec fn node_stmt_names(c: Seq<SchemaStm>) -> Seq<Seq<char>>
    decreases c.len(),
{
    if c.len() == 0 {
        Seq::empty()
    } else {
        node_stmt_names(c.drop_last()) + match c.last() {
            SchemaStm::Node(n) => seq![n.name@],
            _ => Seq::empty(),
        }
    }
}

/// The representation of a Python getter of the nodes `end`: as in Rust, but never `Result`
/// when more than one endpoint of its edges starts at `node`.
pub open spec fn py_group_repr(group: Seq<EdgeExp>, node: Seq<char>, end: Seq<char>, dir: Direction) -> EdgeRepresentation {
    let r = group_repr(group, node, end, dir);
    if group_starts(group, node, dir) > 1 && r == EdgeRepresentation::Result {
        EdgeRepresentation::Option
    } else {
        r
    }
}

/// The edge type a Python getter of nodes hands back, for the edges `group`, in a schema
/// with `node_count` differently named node statements.
pub open spec fn py_node_target(group: Seq<EdgeExp>, node_count: nat) -> Seq<char> {
    if group.len() == 1 {
        "Edge."@ + group[0].name@
    } else if node_count < 10 {
        join_texts(wrap_texts(edge_names(group), "Edge."@, ""@), " | "@)
    } else {
        "Edge"@
    }
}

/// The node type a Python getter of an edge type hands back, for its target nodes `ends`.
pub open spec fn py_edge_target(ends: Seq<Seq<char>>) -> Seq<char> {
    if ends.len() == 1 {
        "Node."@ + ends[0]
    } else if ends.len() < 10 {
        join_texts(wrap_texts(ends, "Node."@, ""@), " | "@)
    } else {
        "Node"@
    }
}

pub open spec fn py_head(fname: Seq<char>, sn: Seq<char>, ret: Seq<char>) -> Seq<char> {
    "\n    def "@ + fname + "(self, g: '"@ + sn + "Graph') -> "@ + ret + ":\n"@
}

pub open spec fn py_filter_in(dir: Direction, patterns: Seq<char>) -> Seq<char> {
    "        edges = g.get_"@ + spec_search_dir(dir) + "_filter(self.get_id(), lambda e: e.get_type() in ["@
        + patterns + "])\n"@
}

pub open spec fn py_filter_eq(dir: Direction, edge: Seq<char>) -> Seq<char> {
    "        edges = g.get_"@ + spec_search_dir(dir) + "_filter(self.get_id(), lambda e: e.get_type() == EdgeType."@
        + edge + ")\n"@
}

pub open spec fn py_map_line() -> Seq<char> {
    "        nodes = map(lambda e: (e.weight, g.get_node(e.get_outer())), edges)\n"@
}

pub open spec fn py_node_filter(t: Seq<char>) -> Seq<char> {
    "        nodes = filter(lambda ne: ne[1].get_type() == NodeType."@ + t + ", nodes)\n"@
}

pub open spec fn py_tail(r: EdgeRepresentation, names: Seq<char>) -> Seq<char> {
    spec_collect_results_python(r, names) + "        return nodes\n"@
}

/// The Python getter of the node `node` for the nodes `end`, through the edges `group`.
pub open spec fn py_node_getter(
    c: Seq<SchemaStm>,
    node: Seq<char>,
    end: Seq<char>,
    dir: Direction,
    sn: Seq<char>,
    group: Seq<EdgeExp>,
) -> Seq<char> {
    let repr = py_group_repr(group, node, end, dir);
    let target = py_node_target(group, sorted_names(node_stmt_names(c)).len());
    let fname = getter_name(
        node_rename(c, node, end, spec_rename_attribute_name(dir)),
        default_getter_name(end, dir),
    );
    py_head(fname, sn, spec_return_type_python(repr, target, "Node."@ + end)) + py_filter_in(
        dir,
        join_texts(wrap_texts(edge_names(group), "EdgeType."@, ""@), ", "@),
    ) + py_map_line() + py_node_filter(end) + py_tail(repr, join_texts(edge_names(group), ", "@))
}

/// The Python getter of the edge type of the link `i` among the links `ls`.
pub open spec fn py_edge_getter(ls: Seq<Link>, i: int, dir: Direction, sn: Seq<char>) -> Seq<char> {
    let name = ls[i].1.name@;
    let repr = edge_repr(ls, name, dir);
    let fname = getter_name(
        first_key_value(ls[i].1.attributes.key_values@, spec_rename_attribute_name(dir)),
        default_getter_name(name, dir),
    );
    py_head(fname, sn, spec_return_type_python(repr, "Edge."@ + name, py_edge_target(edge_ends(ls, name, dir))))
        + py_filter_eq(dir, name) + py_map_line() + py_tail(repr, fname)
}

/// The Python getter of the endpoint of the link `i` among the links `ls`.
pub open spec fn py_endpoint_getter(ls: Seq<Link>, i: int, dir: Direction, sn: Seq<char>) -> Seq<char> {
    let p = ls[i].0;
    let name = ls[i].1.name@;
    let target = end_of(p, dir);
    let repr = spec_from_bounds(quantity_of(p, dir));
    let fname = getter_name(
        first_key_value(p.attributes.key_values@, spec_rename_attribute_name(dir)),
        "get_"@ + snake_text(target) + "_via_"@ + snake_text(name) + "_"@ + spec_function_suffix(dir),
    );
    py_head(fname, sn, spec_return_type_python(repr, "Edge."@ + name, "Node."@ + target)) + py_filter_eq(
        dir,
        name,
    ) + py_map_line() + py_node_filter(target) + py_tail(repr, name)
}

pub open spec fn py_edge_getters(ls: Seq<Link>, dir: Direction, sn: Seq<char>, k: nat) -> Seq<char>
    decreases k,
{
    if k == 0 {
        Seq::empty()
    } else {
        py_edge_getters(ls, dir, sn, (k - 1) as nat) + if first_of_edge(ls, k - 1) {
            py_edge_getter(ls, k - 1, dir, sn)
        } else {
            Seq::empty()
        }
    }
}

pub open spec fn py_endpoint_getters(ls: Seq<Link>, dir: Direction, sn: Seq<char>, k: nat) -> Seq<char>
    decreases k,
{
    if k == 0 {
        Seq::empty()
    } else {
        py_endpoint_getters(ls, dir, sn, (k - 1) as nat) + if first_of_pair(ls, k - 1) {
            py_endpoint_getter(ls, k - 1, dir, sn)
        } else {
            Seq::empty()
        }
    }
}

pub open spec fn py_node_getters(c: Seq<SchemaStm>, node: Seq<char>, dir: Direction, sn: Seq<char>, ls: Seq<Link>) -> Seq<
    char,
> {
    concat_map(
        sorted_names(end_names(ls, dir)),
        |end: Seq<char>| py_node_getter(c, node, end, dir, sn, link_edges(links_at(ls, end, dir, false))),
    )
}

/// All Python getters of the node `node` in direction `dir`.
pub open spec fn py_dir_block(c: Seq<SchemaStm>, node: Seq<char>, dir: Direction, sn: Seq<char>) -> Seq<char> {
    let ls = links_from(all_links(c), node, dir);
    py_node_getters(c, node, dir, sn, ls) + py_edge_getters(ls, dir, sn, ls.len()) + py_endpoint_getters(
        ls,
        dir,
        sn,
        ls.len(),
    )
}

/// The files after the Python getters of each node in `nodes` were added to its file, in order.
pub open spec fn add_py_node_blocks(
    files: Map<Seq<char>, Option<Seq<char>>>,
    nodes: Seq<Seq<char>>,
    c: Seq<SchemaStm>,
    sn: Seq<char>,
    folder: Seq<char>,
) -> Map<Seq<char>, Option<Seq<char>>>
    decreases nodes.len(),
{
    if nodes.len() == 0 {
        files
    } else {
        let node = nodes.last();
        spec_add_content(
            add_py_node_blocks(files, nodes.drop_last(), c, sn, folder),
            spec_join_path(folder, snake_text(node) + ".py"@),
            py_dir_block(c, node, Direction::Forward, sn) + py_dir_block(c, node, Direction::Backwards, sn),
        )
    }
}

/// The files after the Python getters of each node at an end of an edge were added to the
/// node's file in `folder`, the nodes taken in the order of their names.
pub open spec fn py_endpoint_files(
    files: Map<Seq<char>, Option<Seq<char>>>,
    schema: Schema,
    folder: Seq<char>,
) -> Map<Seq<char>, Option<Seq<char>>> {
    let c = schema.content@;
    add_py_node_blocks(files, sorted_names(link_names(all_links(c))), c, dots_to_underscores(schema.version@), folder)
}

fn write_py_head(s: &mut String, fname: &str, sn: &str, ret: &str)
    ensures
        final(s)@ == old(s)@ + py_head(fname@, sn@, ret@),
{
    let ghost s0 = s@;
    s.append("\n    def ");
    s.append(fname);
    s.append("(self, g: '");
    s.append(sn);
    s.append("Graph') -> ");
    s.append(ret);
    s.append(":\n");
    assert(s@ =~= s0 + py_head(fname@, sn@, ret@));
}

fn write_py_filter(s: &mut String, dir: Direction, text: &str, is_in: bool)
    ensures
        final(s)@ == old(s)@ + if is_in {
            py_filter_in(dir, text@)
        } else {
            py_filter_eq(dir, text@)
        },
{
    let ghost s0 = s@;
    s.append("        edges = g.get_");
    s.append(search_dir(dir));
    if is_in {
        s.append("_filter(self.get_id(), lambda e: e.get_type() in [");
        s.append(text);
        s.append("])\n");
        assert(s@ =~= s0 + py_filter_in(dir, text@));
    } else {
        s.append("_filter(self.get_id(), lambda e: e.get_type() == EdgeType.");
        s.append(text);
        s.append(")\n");
        assert(s@ =~= s0 + py_filter_eq(dir, text@));
    }
}

fn write_py_node_filter(s: &mut String, t: &str)
    ensures
        final(s)@ == old(s)@ + py_node_filter(t@),
{
    let ghost s0 = s@;
    s.append("        nodes = filter(lambda ne: ne[1].get_type() == NodeType.");
    s.append(t);
    s.append(", nodes)\n");
    assert(s@ =~= s0 + py_node_filter(t@));
}

fn write_py_tail(s: &mut String, r: EdgeRepresentation, names: &str)
    ensures
        final(s)@ == old(s)@ + py_tail(r, names@),
{
    let ghost s0 = s@;
    let _ = r.collect_results_python(names, s);
    s.append("        return nodes\n");
    assert(s@ =~= s0 + py_tail(r, names@));
}

fn prefixed(prefix: &str, name: &str) -> (r: String)
    ensures
        r@ == prefix@ + name@,
{
    let mut r = String::from_str(prefix);
    r.append(name);
    r
}

/// The number of differently named node statements, as the Python getters count them.
fn node_stmt_count(content: &Vec<SchemaStm>) -> (r: usize)
    ensures
        r == sorted_names(node_stmt_names(content@)).len(),
{
    let mut v: Vec<String> = Vec::new();
    let n = content.len();
    let mut i: usize = 0;
    proof {
        assert(texts(v@).to_set() =~= node_stmt_names(content@.take(0)).to_set());
    }
    while i < n
        invariant
            n == content@.len(),
            i <= n,
            strictly_sorted(texts(v@)),
            texts(v@).to_set() == node_stmt_names(content@.take(i as int)).to_set(),
        decreases n - i,
    {
        assert(content@.take(i + 1).drop_last() =~= content@.take(i as int));
        let ghost prev = node_stmt_names(content@.take(i as int));
        match &content[i] {
            SchemaStm::Node(x) => {
                insert_sorted(&mut v, x.name.as_str());
                proof {
                    assert(node_stmt_names(content@.take(i + 1)) =~= prev.push(x.name@));
                    prev.lemma_push_to_set_commute(x.name@);
                }
            },
            _ => {
                assert(node_stmt_names(content@.take(i + 1)) =~= prev);
            },
        }
        i = i + 1;
    }
    proof {
        assert(content@.take(n as int) =~= content@);
        lemma_sorted_names(texts(v@), node_stmt_names(content@));
    }
    v.len()
}

/// The Python representation of the getter for the nodes `end` through the edges `group`.
fn py_group_repr_of(
    content: &Vec<SchemaStm>,
    group: &Vec<(usize, usize)>,
    node: &str,
    end: &str,
    dir: Direction,
) -> (r: EdgeRepresentation)
    requires
        all_valid(content@, group@),
    ensures
        r == py_group_repr(link_edges(ix_view(content@, group@)), node@, end@, dir),
{
    let base = group_repr_of(content, group, node, end, dir);
    let mut count: usize = 0;
    let n = group.len();
    let mut i: usize = 0;
    while i < n
        invariant
            n == group@.len(),
            i <= n,
            all_valid(content@, group@),
            count <= 2,
            count == if group_starts(link_edges(ix_view(content@, group@.take(i as int))), node@, dir) > 2 {
                2
            } else {
                group_starts(link_edges(ix_view(content@, group@.take(i as int))), node@, dir)
            },
        decreases n - i,
    {
        assert(valid_ix(content@, group@[i as int]));
        let (_p, e) = link_ref(content, group[i]);
        let ghost total = group_starts(link_edges(ix_view(content@, group@.take(i as int))), node@, dir);
        let m = e.endpoints.len();
        let mut j: usize = 0;
        while j < m
            invariant
                m == e.endpoints@.len(),
                j <= m,
                count <= 2,
                count == if total + starts_count(e.endpoints@.take(j as int), node@, dir) > 2 {
                    2
                } else {
                    total + starts_count(e.endpoints@.take(j as int), node@, dir)
                },
            decreases m - j,
        {
            assert(e.endpoints@.take(j + 1).drop_last() =~= e.endpoints@.take(j as int));
            let p = &e.endpoints[j];
            let start = match dir {
                Direction::Forward => &p.source,
                Direction::Backwards => &p.target,
            };
            if str_equal(start.as_str(), node) && count < 2 {
                count = count + 1;
            }
            j = j + 1;
        }
        assert(e.endpoints@.take(m as int) =~= e.endpoints@);
        assert(link_edges(ix_view(content@, group@.take(i + 1))).drop_last() =~= link_edges(
            ix_view(content@, group@.take(i as int)),
        ));
        i = i + 1;
    }
    assert(group@.take(n as int) =~= group@);
    if count > 1 && base == EdgeRepresentation::Result {
        EdgeRepresentation::Option
    } else {
        base
    }
}

#[verifier::rlimit(40)]
fn write_py_node_getter(
    s: &mut String,
    content: &Vec<SchemaStm>,
    node: &str,
    end: &str,
    dir: Direction,
    sn: &str,
    group: &Vec<(usize, usize)>,
    node_count: usize,
)
    requires
        all_valid(content@, group@),
        node_count == sorted_names(node_stmt_names(content@)).len(),
    ensures
        final(s)@ == old(s)@ + py_node_getter(content@, node@, end@, dir, sn@, link_edges(ix_view(content@, group@))),
{
    let ghost s0 = s@;
    let ghost g = link_edges(ix_view(content@, group@));
    let mut names: Vec<String> = Vec::new();
    let n = group.len();
    let mut i: usize = 0;
    while i < n
        invariant
            n == group@.len(),
            i <= n,
            all_valid(content@, group@),
            texts(names@) == edge_names(link_edges(ix_view(content@, group@.take(i as int)))),
        decreases n - i,
    {
        assert(valid_ix(content@, group@[i as int]));
        let (_p, e) = link_ref(content, group[i]);
        let ghost before = texts(names@);
        names.push(e.name.clone());
        assert(texts(names@) =~= before.push(e.name@));
        assert(edge_names(link_edges(ix_view(content@, group@.take(i + 1)))) =~= before.push(e.name@));
        i = i + 1;
    }
    assert(group@.take(n as int) =~= group@);
    assert(texts(names@) == edge_names(g));
    let target = if n == 1 {
        prefixed("Edge.", names[0].as_str())
    } else if node_count < 10 {
        join_wrapped(&names, "Edge.", "", " | ")
    } else {
        String::from_str("Edge")
    };
    let repr = py_group_repr_of(content, group, node, end, dir);
    let rename = match find_last_node(content, node) {
        Some(x) => find_rename(&x.attributes.functions, rename_attribute_name(dir), end),
        None => None,
    };
    let fname = getter_name_of(rename, default_name_of(end, dir));
    let node_t = prefixed("Node.", end);
    let ret = repr.get_return_type_python(target.as_str(), node_t.as_str());
    let patterns = join_wrapped(&names, "EdgeType.", "", ", ");
    let name_list = join_strings(&names, ", ");
    write_py_head(s, fname.as_str(), sn, ret.as_str());
    write_py_filter(s, dir, patterns.as_str(), true);
    s.append("        nodes = map(lambda e: (e.weight, g.get_node(e.get_outer())), edges)\n");
    write_py_node_filter(s, end);
    write_py_tail(s, repr, name_list.as_str());
    proof {
        assert(g.len() == n);
        assert(target@ == py_node_target(g, node_count as nat));
        let head = py_head(fname@, sn@, ret@);
        let filt = py_filter_in(dir, patterns@);
        assert(s@ =~= s0 + (head + filt + py_map_line() + py_node_filter(end@) + py_tail(repr, name_list@)));
        assert(py_node_getter(content@, node@, end@, dir, sn@, g) == head + filt + py_map_line()
            + py_node_filter(end@) + py_tail(repr, name_list@));
    }
}

fn write_getter_with_node(
    s: &mut String,
    content: &Vec<SchemaStm>,
    node: &str,
    dir: Direction,
    sn: &str,
    ls: &Vec<(usize, usize)>,
    node_count: usize,
)
    requires
        all_valid(content@, ls@),
        node_count == sorted_names(node_stmt_names(content@)).len(),
    ensures
        final(s)@ == old(s)@ + py_node_getters(content@, node@, dir, sn@, ix_view(content@, ls@)),
{
    let ghost lv = ix_view(content@, ls@);
    let ghost f = |end: Seq<char>| py_node_getter(content@, node@, end, dir, sn@, link_edges(links_at(lv, end, dir, false)));
    let ends = sorted_end_names(content, ls, dir);
    let ghost es = texts(ends@);
    let n = ends.len();
    let mut i: usize = 0;
    while i < n
        invariant
            n == ends@.len(),
            es == texts(ends@),
            lv == ix_view(content@, ls@),
            f == (|end: Seq<char>| py_node_getter(content@, node@, end, dir, sn@, link_edges(links_at(lv, end, dir, false)))),
            all_valid(content@, ls@),
            node_count == sorted_names(node_stmt_names(content@)).len(),
            i <= n,
            s@ == old(s)@ + concat_map(es.subrange(0, i as int), f),
        decreases n - i,
    {
        proof {
            lemma_concat_map_step(es, i as int, f);
        }
        let group = filter_links(content, ls, ends[i].as_str(), dir, false);
        let ghost before = s@;
        write_py_node_getter(s, content, node, ends[i].as_str(), dir, sn, &group, node_count);
        assert(es[i as int] == ends@[i as int]@);
        assert(s@ =~= before + f(es[i as int]));
        i = i + 1;
    }
    proof {
        lemma_concat_map_all(es, f);
    }
}

fn py_edge_target_of(ends: &Vec<String>) -> (r: String)
    ensures
        r@ == py_edge_target(texts(ends@)),
{
    let n = ends.len();
    if n == 1 {
        prefixed("Node.", ends[0].as_str())
    } else if n < 10 {
        join_wrapped(ends, "Node.", "", " | ")
    } else {
        String::from_str("Node")
    }
}

fn write_py_edge_getter(s: &mut String, content: &Vec<SchemaStm>, ls: &Vec<(usize, usize)>, i: usize, dir: Direction, sn: &str)
    requires
        all_valid(content@, ls@),
        i < ls@.len(),
    ensures
        final(s)@ == old(s)@ + py_edge_getter(ix_view(content@, ls@), i as int, dir, sn@),
{
    let ghost s0 = s@;
    assert(valid_ix(content@, ls@[i as int]));
    let (_p, e) = link_ref(content, ls[i]);
    assert(ix_view(content@, ls@)[i as int].1 == *e);
    let (repr, ends) = edge_summary(content, ls, e.name.as_str(), dir);
    let target = py_edge_target_of(&ends);
    let rename = find_key_value(&e.attributes.key_values, rename_attribute_name(dir));
    let fname = getter_name_of(rename, default_name_of(e.name.as_str(), dir));
    let edge_t = prefixed("Edge.", e.name.as_str());
    let ret = repr.get_return_type_python(edge_t.as_str(), target.as_str());
    write_py_head(s, fname.as_str(), sn, ret.as_str());
    write_py_filter(s, dir, e.name.as_str(), false);
    s.append("        nodes = map(lambda e: (e.weight, g.get_node(e.get_outer())), edges)\n");
    write_py_tail(s, repr, fname.as_str());
    assert(s@ =~= s0 + (py_head(fname@, sn@, ret@) + py_filter_eq(dir, e.name@) + py_map_line() + py_tail(
        repr,
        fname@,
    )));
}

fn write_py_endpoint_getter(
    s: &mut String,
    content: &Vec<SchemaStm>,
    ls: &Vec<(usize, usize)>,
    i: usize,
    dir: Direction,
    sn: &str,
)
    requires
        all_valid(content@, ls@),
        i < ls@.len(),
    ensures
        final(s)@ == old(s)@ + py_endpoint_getter(ix_view(content@, ls@), i as int, dir, sn@),
{
    let ghost s0 = s@;
    assert(valid_ix(content@, ls@[i as int]));
    let (p, e) = link_ref(content, ls[i]);
    let (target, q) = match dir {
        Direction::Forward => (&p.target, &p.outgoing_quantity),
        Direction::Backwards => (&p.source, &p.incoming_quantity),
    };
    let repr = EdgeRepresentation::from_bounds(&q.bounds);
    let mut default = String::from_str("get_");
    default.append(to_snake_case(target.as_str()).as_str());
    default.append("_via_");
    default.append(to_snake_case(e.name.as_str()).as_str());
    default.append("_");
    default.append(function_suffix(dir));
    let rename = find_key_value(&p.attributes.key_values, rename_attribute_name(dir));
    let fname = getter_name_of(rename, default);
    let edge_t = prefixed("Edge.", e.name.as_str());
    let node_t = prefixed("Node.", target.as_str());
    let ret = repr.get_return_type_python(edge_t.as_str(), node_t.as_str());
    write_py_head(s, fname.as_str(), sn, ret.as_str());
    write_py_filter(s, dir, e.name.as_str(), false);
    s.append("        nodes = map(lambda e: (e.weight, g.get_node(e.get_outer())), edges)\n");
    write_py_node_filter(s, target.as_str());
    write_py_tail(s, repr, e.name.as_str());
    assert(s@ =~= s0 + (py_head(fname@, sn@, ret@) + py_filter_eq(dir, e.name@) + py_map_line() + py_node_filter(
        target@,
    ) + py_tail(repr, e.name@)));
}

fn write_getter_with_edge(s: &mut String, content: &Vec<SchemaStm>, ls: &Vec<(usize, usize)>, dir: Direction, sn: &str)
    requires
        all_valid(content@, ls@),
    ensures
        final(s)@ == old(s)@ + py_edge_getters(ix_view(content@, ls@), dir, sn@, ls@.len()),
{
    let n = ls.len();
    let mut i: usize = 0;
    while i < n
        invariant
            n == ls@.len(),
            i <= n,
            all_valid(content@, ls@),
            s@ == old(s)@ + py_edge_getters(ix_view(content@, ls@), dir, sn@, i as nat),
        decreases n - i,
    {
        let ghost before = s@;
        if is_first_edge(content, ls, i) {
            write_py_edge_getter(s, content, ls, i, dir, sn);
        } else {
            assert(s@ =~= before + Seq::<char>::empty());
        }
        i = i + 1;
    }
}

fn write_getter_with_node_and_edge(s: &mut String, content: &Vec<SchemaStm>, ls: &Vec<(usize, usize)>, dir: Direction, sn: &str)
    requires
        all_valid(content@, ls@),
    ensures
        final(s)@ == old(s)@ + py_endpoint_getters(ix_view(content@, ls@), dir, sn@, ls@.len()),
{
    let n = ls.len();
    let mut i: usize = 0;
    while i < n
        invariant
            n == ls@.len(),
            i <= n,
            all_valid(content@, ls@),
            s@ == old(s)@ + py_endpoint_getters(ix_view(content@, ls@), dir, sn@, i as nat),
        decreases n - i,
    {
        let ghost before = s@;
        if is_first_pair(content, ls, i) {
            write_py_endpoint_getter(s, content, ls, i, dir, sn);
        } else {
            assert(s@ =~= before + Seq::<char>::empty());
        }
        i = i + 1;
    }
}

fn write_py_dir_block(
    s: &mut String,
    content: &Vec<SchemaStm>,
    all: &Vec<(usize, usize)>,
    node: &str,
    dir: Direction,
    sn: &str,
    node_count: usize,
)
    requires
        all_valid(content@, all@),
        ix_view(content@, all@) == all_links(content@),
        node_count == sorted_names(node_stmt_names(content@)).len(),
    ensures
        final(s)@ == old(s)@ + py_dir_block(content@, node@, dir, sn@),
{
    let ghost s0 = s@;
    let ls = filter_links(content, all, node, dir, true);
    write_getter_with_node(s, content, node, dir, sn, &ls, node_count);
    write_getter_with_edge(s, content, &ls, dir, sn);
    write_getter_with_node_and_edge(s, content, &ls, dir, sn);
    assert(s@ =~= s0 + py_dir_block(content@, node@, dir, sn@));
}

/// Add to the Python file of each node at an end of an edge the getters of the nodes and
/// edges it reaches, in both directions.
pub fn write_edge_endpoints_py(schema: &Schema, new_files: &mut GeneratedCode, nodes_folder: &str)
    ensures
        final(new_files)@ == py_endpoint_files(old(new_files)@, *schema, nodes_folder@),
{
    let content = &schema.content;
    let sn = replace_dots(schema.version.as_str());
    let all = gather_links(content);
    let nodes = sorted_link_names(content, &all);
    let node_count = node_stmt_count(content);
    let ghost ns = texts(nodes@);
    let n = nodes.len();
    let mut i: usize = 0;
    while i < n
        invariant
            n == nodes@.len(),
            ns == texts(nodes@),
            i <= n,
            all_valid(content@, all@),
            ix_view(content@, all@) == all_links(content@),
            node_count == sorted_names(node_stmt_names(content@)).len(),
            sn@ == dots_to_underscores(schema.version@),
            new_files@ == add_py_node_blocks(old(new_files)@, ns.take(i as int), content@, sn@, nodes_folder@),
        decreases n - i,
    {
        let node = nodes[i].as_str();
        let mut block = String::new();
        let ghost b0 = block@;
        write_py_dir_block(&mut block, content, &all, node, Direction::Forward, sn.as_str(), node_count);
        write_py_dir_block(&mut block, content, &all, node, Direction::Backwards, sn.as_str(), node_count);
        assert(block@ =~= py_dir_block(content@, node@, Direction::Forward, sn@) + py_dir_block(
            content@,
            node@,
            Direction::Backwards,
            sn@,
        ));
        let mut file = to_snake_case(node);
        file.append(".py");
        let path = join_path(nodes_folder, file.as_str());
        new_files.add_content(path, block);
        assert(ns.take(i + 1).drop_last() =~= ns.take(i as int));
        assert(ns.take(i + 1).last() == node@);
        i = i + 1;
    }
    assert(ns.take(n as int) =~= ns);
}

} // verus!
