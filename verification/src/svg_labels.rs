use vstd::prelude::*;
use vstd::string::*;

use crate::edge_representation::LowerBound;
use crate::rust_endpoints::{find_key_value, first_key_value};
use crate::schema::{EdgeExp, EndPoint, Schema, SchemaStm};
use crate::text::{decimal_text, join_strings, join_texts, texts, write_decimal};

verus! {

/// The label of a node in the drawing of a schema.
pub open spec fn node_label_text(name: Seq<char>) -> Seq<char> {
    "<&lt;"@ + name + "&gt;>"@
}

pub fn node_label(name: &str) -> (r: String)
    ensures
        r@ == node_label_text(name@),
{
    let mut r = String::from_str("<&lt;");
    r.append(name);
    r.append("&gt;>");
    r
}

/// A grey note under a label.
pub open spec fn grey(text: Seq<char>) -> Seq<char> {
    "<FONT COLOR=\"GREY\">"@ + text + "</FONT>"@
}

/// The label of an edge: its name, then the names its getters are renamed to, if any.
pub open spec fn edge_xlabel_text(name: Seq<char>, inc: Option<Seq<char>>, out: Option<Seq<char>>) -> Seq<char> {
    let base = "&lt;"@ + name + "&gt;"@;
    let with_inc = match inc {
        Some(i) => base + "<br/>"@ + grey(i),
        None => base,
    };
    let with_out = match out {
        Some(o) => with_inc + "<br/>"@ + grey(o),
        None => with_inc,
    };
    "<"@ + with_out + ">"@
}

/// The label of an edge type in the drawing.
pub fn edge_xlabel(e: &EdgeExp) -> (r: String)
    ensures
        r@ == edge_xlabel_text(
            e.name@,
            first_key_value(e.attributes.key_values@, "rename_inc"@),
            first_key_value(e.attributes.key_values@, "rename_out"@),
        ),
{
    let mut r = String::from_str("<");
    r.append("&lt;");
    r.append(e.name.as_str());
    r.append("&gt;");
    let ghost base = "&lt;"@ + e.name@ + "&gt;"@;
    assert(r@ =~= "<"@ + base);
    let inc = find_key_value(&e.attributes.key_values, "rename_inc");
    match inc {
        Some(i) => {
            r.append("<br/>");
            r.append("<FONT COLOR=\"GREY\">");
            r.append(i.as_str());
            r.append("</FONT>");
        },
        None => {},
    }
    let ghost with_inc = match inc {
        Some(i) => base + "<br/>"@ + grey(i@),
        None => base,
    };
    assert(r@ =~= "<"@ + with_inc);
    let out = find_key_value(&e.attributes.key_values, "rename_out");
    match out {
        Some(o) => {
            r.append("<br/>");
            r.append("<FONT COLOR=\"GREY\">");
            r.append(o.as_str());
            r.append("</FONT>");
        },
        None => {},
    }
    let ghost with_out = match out {
        Some(o) => with_inc + "<br/>"@ + grey(o@),
        None => with_inc,
    };
    assert(r@ =~= "<"@ + with_out);
    r.append(">");
    r
}

/// The parts of the label at one end of an edge: its bounds, then the name its getter is
/// renamed to, if any.
pub open spec fn bound_parts(bounds: Option<(LowerBound, u32)>, rename: Option<Seq<char>>) -> Seq<Seq<char>> {
    let b = match bounds {
        Some((LowerBound::Zero, upper)) => seq!["0.."@ + decimal_text(upper as nat)],
        Some((LowerBound::One, upper)) => seq!["1.."@ + decimal_text(upper as nat)],
        None => Seq::empty(),
    };
    match rename {
        Some(r) => b.push(grey(r)),
        None => b,
    }
}

/// The label at one end of an edge: its parts joined by ` - `.
pub open spec fn bound_label_text(bounds: Option<(LowerBound, u32)>, rename: Option<Seq<char>>) -> Seq<char> {
    "<"@ + join_texts(bound_parts(bounds, rename), " - "@) + ">"@
}

fn bound_label(bounds: &Option<(LowerBound, u32)>, rename: Option<&String>) -> (r: String)
    ensures
        r@ == bound_label_text(
            *bounds,
            match rename {
                Some(x) => Some(x@),
                None => None,
            },
        ),
{
    let mut parts: Vec<String> = Vec::new();
    match bounds {
        Some((lower, upper)) => {
            let mut p = match lower {
                LowerBound::Zero => String::from_str("0.."),
                LowerBound::One => String::from_str("1.."),
            };
            write_decimal(&mut p, *upper as u64);
            parts.push(p);
        },
        None => {},
    }
    match rename {
        Some(x) => {
            let mut p = String::from_str("<FONT COLOR=\"GREY\">");
            p.append(x.as_str());
            p.append("</FONT>");
            parts.push(p);
        },
        None => {},
    }
    let ghost rn = match rename {
        Some(x) => Some(x@),
        None => None,
    };
    assert(texts(parts@) =~= bound_parts(*bounds, rn));
    let mut r = String::from_str("<");
    r.append(join_strings(&parts, " - ").as_str());
    r.append(">");
    r
}

/// The label at the head of an endpoint's arrow: the bounds on incoming edges.
pub fn head_label(p: &EndPoint) -> (r: String)
    ensures
        r@ == bound_label_text(p.incoming_quantity.bounds, first_key_value(p.attributes.key_values@, "rename_inc"@)),
{
    bound_label(&p.incoming_quantity.bounds, find_key_value(&p.attributes.key_values, "rename_inc"))
}

/// The label at the tail of an endpoint's arrow: the bounds on outgoing edges.
pub fn tail_label(p: &EndPoint) -> (r: String)
    ensures
        r@ == bound_label_text(p.outgoing_quantity.bounds, first_key_value(p.attributes.key_values@, "rename_out"@)),
{
    bound_label(&p.outgoing_quantity.bounds, find_key_value(&p.attributes.key_values, "rename_out"))
}


/// What the drawing of a schema shows: a node with its label, or the arrow of one endpoint
/// of an edge, from its source to its target, with the edge's label and the labels at its
/// head and tail.
#[derive(Debug)]
pub enum DrawItem {
    Node { id: String, label: String },
    Edge { source: String, target: String, xlabel: String, head: String, tail: String },
}

/// A drawn item, read as plain values.
pub enum Drawn {
    Node(Seq<char>, Seq<char>),
    Edge(Seq<char>, Seq<char>, Seq<char>, Seq<char>, Seq<char>),
}

impl View for DrawItem {
    type V = Drawn;

    open spec fn view(&self) -> Drawn {
        match self {
            DrawItem::Node { id, label } => Drawn::Node(id@, label@),
            DrawItem::Edge { source, target, xlabel, head, tail } => Drawn::Edge(
                source@,
                target@,
                xlabel@,
                head@,
                tail@,
            ),
        }
    }
}

/// The items of a list, read as plain values.
pub open spec fn drawn_view(v: Seq<DrawItem>) -> Seq<Drawn> {
    v.map_values(|d: DrawItem| d@)
}

/// The label of the edge `e`, as `edge_xlabel` makes it.
pub open spec fn edge_xlabel_of(e: EdgeExp) -> Seq<char> {
    edge_xlabel_text(
        e.name@,
        first_key_value(e.attributes.key_values@, "rename_inc"@),
        first_key_value(e.attributes.key_values@, "rename_out"@),
    )
}

/// The arrow of the endpoint `p` of an edge whose label is `xlabel`.
pub open spec fn endpoint_drawn(p: EndPoint, xlabel: Seq<char>) -> Drawn {
    Drawn::Edge(
        p.source@,
        p.target@,
        xlabel,
        bound_label_text(p.incoming_quantity.bounds, first_key_value(p.attributes.key_values@, "rename_inc"@)),
        bound_label_text(p.outgoing_quantity.bounds, first_key_value(p.attributes.key_values@, "rename_out"@)),
    )
}

/// What the drawing shows of one statement: a node is drawn as itself, an edge as one
/// arrow for each of its endpoints in order; other statements are not drawn.
pub open spec fn stm_drawn(st: SchemaStm) -> Seq<Drawn> {
    match st {
        SchemaStm::Node(n) => seq![Drawn::Node(n.name@, node_label_text(n.name@))],
        SchemaStm::Edge(e) => e.endpoints@.map_values(|p: EndPoint| endpoint_drawn(p, edge_xlabel_of(e))),
        _ => Seq::empty(),
    }
}

/// What the drawing shows of the statements `c`, in their order.
pub open spec fn schema_drawn(c: Seq<SchemaStm>) -> Seq<Drawn>
    decreases c.len(),
{
    if c.len() == 0 {
        Seq::empty()
    } else {
        schema_drawn(c.drop_last()) + stm_drawn(c.last())
    }
}

/// The nodes and arrows of the drawing of `schema`, in the order of its statements.
pub fn schema_drawing(schema: &Schema) -> (r: Vec<DrawItem>)
    ensures
        drawn_view(r@) == schema_drawn(schema.content@),
{
    let c = &schema.content;
    let n = c.len();
    let mut r: Vec<DrawItem> = Vec::new();
    let mut i: usize = 0;
    while i < n
        invariant
            n == c@.len(),
            i <= n,
            drawn_view(r@) == schema_drawn(c@.take(i as int)),
        decreases n - i,
    {
        assert(c@.take(i + 1).drop_last() =~= c@.take(i as int));
        let ghost before = drawn_view(r@);
        match &c[i] {
            SchemaStm::Node(x) => {
                r.push(DrawItem::Node { id: x.name.clone(), label: node_label(x.name.as_str()) });
                assert(drawn_view(r@) =~= before + stm_drawn(c@[i as int]));
            },
            SchemaStm::Edge(e) => {
                let xlabel = edge_xlabel(e);
                let m = e.endpoints.len();
                let mut j: usize = 0;
                while j < m
                    invariant
                        m == e.endpoints@.len(),
                        j <= m,
                        xlabel@ == edge_xlabel_of(*e),
                        drawn_view(r@) == before + e.endpoints@.take(j as int).map_values(
                            |p: EndPoint| endpoint_drawn(p, edge_xlabel_of(*e)),
                        ),
                    decreases m - j,
                {
                    let p = &e.endpoints[j];
                    let ghost mid = drawn_view(r@);
                    r.push(
                        DrawItem::Edge {
                            source: p.source.clone(),
                            target: p.target.clone(),
                            xlabel: xlabel.clone(),
                            head: head_label(p),
                            tail: tail_label(p),
                        },
                    );
                    assert(drawn_view(r@) =~= mid.push(endpoint_drawn(*p, edge_xlabel_of(*e))));
                    assert(e.endpoints@.take(j + 1) =~= e.endpoints@.take(j as int).push(*p));
                    assert(drawn_view(r@) =~= before + e.endpoints@.take(j + 1).map_values(
                        |p: EndPoint| endpoint_drawn(p, edge_xlabel_of(*e)),
                    ));
                    j = j + 1;
                }
                assert(e.endpoints@.take(m as int) =~= e.endpoints@);
                assert(drawn_view(r@) =~= before + stm_drawn(c@[i as int]));
            },
            _ => {
                assert(drawn_view(r@) =~= before + stm_drawn(c@[i as int]));
            },
        }
        i = i + 1;
    }
    assert(c@.take(n as int) =~= c@);
    r
}

} // verus!
