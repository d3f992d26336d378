use vstd::prelude::*;
use vstd::string::*;

use crate::naming::all_ascii;
use crate::book_examples::{
    ascii_lower, ex_result, ex_stm, ex_variant, find_stm, fits, gen_schema_example, gen_schema_example_within, gen_type_def,
    gen_varient_example, gen_varient_example_within, lowercase_text,
    schema_example_ends, schema_example_fuel, scope_view, stm_named, to_lowercase, type_def, varient_example_ends,
    varient_example_fuel, Example, ScopeView,
};
use crate::error::{GenError, GenResult};
use crate::schema::{
    EdgeExp, EndPoint, EnumExp, EnumVarient, FieldValue, ImportExp, NodeExp, Quantifier, Schema, SchemaStm, StructExp,
};
use crate::direction::Direction;
use crate::listing::head_order;
use crate::project::{leads_nowhere, str_equal, Project};
use crate::types::Types;
use crate::text::{join_strings, join_texts, push_char, texts};

verus! {

/// A name made fit to be an anchor in the book: without `<`, `>`, `\` and `,`, with
/// each space made a `-`, before it is put in lower case.
pub open spec fn ref_chars(s: Seq<char>) -> Seq<char>
    decreases s.len(),
{
    if s.len() == 0 {
        Seq::empty()
    } else {
        let c = s.last();
        ref_chars(s.drop_last()) + if c == '<' || c == '>' || c == '\\' || c == ',' {
            Seq::empty()
        } else if c == ' ' {
            seq!['-']
        } else {
            seq![c]
        }
    }
}

/// The anchor of a name in the book.
pub open spec fn ref_text(name: Seq<char>) -> Seq<char> {
    lowercase_text(ref_chars(name))
}

proof fn lemma_ref_chars_ascii(s: Seq<char>)
    requires
        all_ascii(s),
    ensures
        all_ascii(ref_chars(s)),
    decreases s.len(),
{
    if s.len() > 0 {
        let t = s.drop_last();
        assert(all_ascii(t)) by {
            assert forall|i: int| 0 <= i < t.len() implies (#[trigger] t[i] as u32) < 128 by {
                assert(t[i] == s[i]);
            }
        }
        lemma_ref_chars_ascii(t);
        assert((s[s.len() - 1] as u32) < 128);
    }
}

/// The anchor of a name in the book: `<`, `>`, `\` and `,` dropped, spaces made `-`, in
/// lower case.
pub fn create_ref_name(name: &str) -> (r: String)
    ensures
        r@ == ref_text(name@),
        all_ascii(name@) ==> r@ == ref_chars(name@).map_values(|c: char| ascii_lower(c)),
{
    let mut s = String::new();
    let n = name.unicode_len();
    let mut i: usize = 0;
    while i < n
        invariant
            n == name@.len(),
            i <= n,
            s@ == ref_chars(name@.subrange(0, i as int)),
        decreases n - i,
    {
        let c = name.get_char(i);
        assert(name@.subrange(0, i + 1).drop_last() =~= name@.subrange(0, i as int));
        if c == '<' || c == '>' || c == '\\' || c == ',' {
            assert(s@ =~= ref_chars(name@.subrange(0, i + 1)));
        } else if c == ' ' {
            push_char(&mut s, '-');
        } else {
            push_char(&mut s, c);
        }
        i = i + 1;
    }
    assert(name@.subrange(0, n as int) =~= name@);
    proof {
        if all_ascii(name@) {
            lemma_ref_chars_ascii(name@);
        }
    }
    to_lowercase(s.as_str())
}

/// Comment lines as the book shows them: joined by a markdown line break.
pub open spec fn comment_text(lines: Seq<String>) -> Seq<char> {
    join_texts(texts(lines), "  \n"@)
}

fn comment_of(lines: &Vec<String>) -> (r: String)
    ensures
        r@ == comment_text(lines@),
{
    join_strings(lines, "  \n")
}

/// What the book shows of a field.
pub struct FieldData {
    pub name: String,
    /// The type of the field, each part linked to its page.
    pub ty: String,
    pub doc_comments: String,
    pub comments: String,
}

impl View for FieldData {
    type V = (Seq<char>, Seq<char>, Seq<char>, Seq<char>);

    open spec fn view(&self) -> Self::V {
        (self.name@, self.ty@, self.doc_comments@, self.comments@)
    }
}

/// What the book shows of a field of a statement whose anchor is `ref_name`.
pub open spec fn field_row(f: FieldValue, ref_name: Seq<char>, c: Seq<SchemaStm>) -> (
    Seq<char>,
    Seq<char>,
    Seq<char>,
    Seq<char>,
) {
    (f.name@, type_def(f.field_type, ref_name, c), comment_text(f.comments.doc@), comment_text(f.comments.other@))
}

pub open spec fn field_rows(fs: Seq<FieldValue>, ref_name: Seq<char>, c: Seq<SchemaStm>) -> Seq<
    (Seq<char>, Seq<char>, Seq<char>, Seq<char>),
> {
    fs.map_values(|f: FieldValue| field_row(f, ref_name, c))
}

pub open spec fn field_views(v: Seq<FieldData>) -> Seq<(Seq<char>, Seq<char>, Seq<char>, Seq<char>)> {
    v.map_values(|d: FieldData| d@)
}

/// The rows of the fields of a statement whose anchor is `ref_name`.
pub fn field_data(fields: &Vec<FieldValue>, ref_name: &str, schema: &Schema) -> (r: Vec<FieldData>)
    ensures
        field_views(r@) == field_rows(fields@, ref_name@, schema.content@),
{
    let mut r: Vec<FieldData> = Vec::new();
    let n = fields.len();
    let mut i: usize = 0;
    while i < n
        invariant
            n == fields@.len(),
            i <= n,
            field_views(r@) == field_rows(fields@.take(i as int), ref_name@, schema.content@),
        decreases n - i,
    {
        let f = &fields[i];
        let ty = match gen_type_def(&f.field_type, ref_name, schema) {
            Ok(d) => d,
            Err(_) => String::new(),
        };
        let row = FieldData {
            name: f.name.clone(),
            ty,
            doc_comments: comment_of(&f.comments.doc),
            comments: comment_of(&f.comments.other),
        };
        let ghost before = r@;
        r.push(row);
        proof {
            assert(field_views(r@) =~= field_views(before).push(field_row(fields@[i as int], ref_name@, schema.content@)));
            assert(fields@.take(i + 1) =~= fields@.take(i as int).push(fields@[i as int]));
            assert(field_rows(fields@.take(i + 1), ref_name@, schema.content@) =~= field_rows(
                fields@.take(i as int),
                ref_name@,
                schema.content@,
            ).push(field_row(fields@[i as int], ref_name@, schema.content@)));
        }
        i = i + 1;
    }
    assert(fields@.take(n as int) =~= fields@);
    r
}

/// The kinds of statement that have a section of their own in the book.
#[derive(PartialEq, Eq, Structural, Debug, Clone, Copy)]
pub enum StatementKind {
    Node,
    Edge,
    Struct,
    Type,
}

/// The name a statement of kind `k` declares, if it is of that kind.
pub open spec fn name_of_kind(st: SchemaStm, k: StatementKind) -> Option<Seq<char>> {
    match (st, k) {
        (SchemaStm::Node(x), StatementKind::Node) => Some(x.name@),
        (SchemaStm::Edge(x), StatementKind::Edge) => Some(x.name@),
        (SchemaStm::Struct(x), StatementKind::Struct) => Some(x.name@),
        (SchemaStm::Enum(x), StatementKind::Type) => Some(x.name@),
        _ => None,
    }
}

/// The names of the statements of kind `k`, in the order of the schema.
pub open spec fn names_of_kind(c: Seq<SchemaStm>, k: StatementKind) -> Seq<Seq<char>>
    decreases c.len(),
{
    if c.len() == 0 {
        Seq::empty()
    } else {
        names_of_kind(c.drop_last(), k) + match name_of_kind(c.last(), k) {
            Some(n) => seq![n],
            None => Seq::empty(),
        }
    }
}

fn statement_names(schema: &Schema, k: StatementKind) -> (r: Vec<String>)
    ensures
        texts(r@) == names_of_kind(schema.content@, k),
{
    let c = &schema.content;
    let mut r: Vec<String> = Vec::new();
    let n = c.len();
    let mut i: usize = 0;
    while i < n
        invariant
            n == c@.len(),
            i <= n,
            texts(r@) == names_of_kind(c@.take(i as int), k),
        decreases n - i,
    {
        assert(c@.take(i + 1).drop_last() =~= c@.take(i as int));
        let ghost before = texts(r@);
        let name: Option<&String> = match (&c[i], k) {
            (SchemaStm::Node(x), StatementKind::Node) => Some(&x.name),
            (SchemaStm::Edge(x), StatementKind::Edge) => Some(&x.name),
            (SchemaStm::Struct(x), StatementKind::Struct) => Some(&x.name),
            (SchemaStm::Enum(x), StatementKind::Type) => Some(&x.name),
            _ => None,
        };
        match name {
            Some(x) => {
                r.push(x.clone());
                assert(texts(r@) =~= before.push(x@));
            },
            None => {},
        }
        i = i + 1;
    }
    assert(c@.take(n as int) =~= c@);
    r
}

/// The names listed on the page about the nodes of a schema.
pub fn populate_nodes_section_header(schema: &Schema) -> (r: Vec<String>)
    ensures
        texts(r@) == names_of_kind(schema.content@, StatementKind::Node),
{
    statement_names(schema, StatementKind::Node)
}

/// The names listed on the page about the edges of a schema.
pub fn populate_edges_section_header(schema: &Schema) -> (r: Vec<String>)
    ensures
        texts(r@) == names_of_kind(schema.content@, StatementKind::Edge),
{
    statement_names(schema, StatementKind::Edge)
}

/// The names listed on the page about the structs of a schema.
pub fn populate_structs_section_header(schema: &Schema) -> (r: Vec<String>)
    ensures
        texts(r@) == names_of_kind(schema.content@, StatementKind::Struct),
{
    statement_names(schema, StatementKind::Struct)
}

/// The names listed on the page about the enum types of a schema.
pub fn populate_types_section_header(schema: &Schema) -> (r: Vec<String>)
    ensures
        texts(r@) == names_of_kind(schema.content@, StatementKind::Type),
{
    statement_names(schema, StatementKind::Type)
}

/// What the book shows of an import.
pub struct ImportData {
    pub name: String,
    pub doc_comments: String,
    pub comments: String,
}

impl View for ImportData {
    type V = (Seq<char>, Seq<char>, Seq<char>);

    open spec fn view(&self) -> Self::V {
        (self.name@, self.doc_comments@, self.comments@)
    }
}

pub open spec fn import_row(x: ImportExp) -> (Seq<char>, Seq<char>, Seq<char>) {
    (x.name@, comment_text(x.comments.doc@), comment_text(x.comments.other@))
}

/// The rows of the imports of a schema, in its order.
pub open spec fn import_rows(c: Seq<SchemaStm>) -> Seq<(Seq<char>, Seq<char>, Seq<char>)>
    decreases c.len(),
{
    if c.len() == 0 {
        Seq::empty()
    } else {
        import_rows(c.drop_last()) + match c.last() {
            SchemaStm::Import(x) => seq![import_row(x)],
            _ => Seq::empty(),
        }
    }
}

pub open spec fn import_views(v: Seq<ImportData>) -> Seq<(Seq<char>, Seq<char>, Seq<char>)> {
    v.map_values(|d: ImportData| d@)
}

/// The imports listed on the page about the imports of a schema.
pub fn populate_imports_section_header(schema: &Schema) -> (r: Vec<ImportData>)
    ensures
        import_views(r@) == import_rows(schema.content@),
{
    let c = &schema.content;
    let mut r: Vec<ImportData> = Vec::new();
    let n = c.len();
    let mut i: usize = 0;
    while i < n
        invariant
            n == c@.len(),
            i <= n,
            import_views(r@) == import_rows(c@.take(i as int)),
        decreases n - i,
    {
        assert(c@.take(i + 1).drop_last() =~= c@.take(i as int));
        let ghost before = import_views(r@);
        match &c[i] {
            SchemaStm::Import(x) => {
                r.push(ImportData {
                    name: x.name.clone(),
                    doc_comments: comment_of(&x.comments.doc),
                    comments: comment_of(&x.comments.other),
                });
                assert(import_views(r@) =~= before.push(import_row(*x)));
            },
            _ => {},
        }
        i = i + 1;
    }
    assert(c@.take(n as int) =~= c@);
    r
}

/// A markdown link to the page of `name` in the folder `dir` of its schema.
pub open spec fn md_link(dir: Seq<char>, name: Seq<char>) -> Seq<char> {
    "["@ + name + "](../"@ + dir + "/"@ + name + ".md)"@
}

fn md_link_of(dir: &str, name: &str) -> (r: String)
    ensures
        r@ == md_link(dir@, name@),
{
    let mut r = String::from_str("[");
    r.append(name);
    r.append("](../");
    r.append(dir);
    r.append("/");
    r.append(name);
    r.append(".md)");
    r
}

/// Whether the example of the statement declaring `name` ends, when there is one.
pub open spec fn statement_example_ends(c: Seq<SchemaStm>, name: Seq<char>, scope: ScopeView) -> bool {
    match stm_named(c, name) {
        Some(st) => schema_example_ends(st, 0, c, scope),
        None => true,
    }
}

/// The example of the statement declaring `name`, or the name itself as the reference to
/// no statement.
pub open spec fn statement_example(c: Seq<SchemaStm>, name: Seq<char>, scope: ScopeView) -> Example {
    match stm_named(c, name) {
        Some(st) => ex_stm(schema_example_fuel(st, 0, c, scope), st, 0, c, scope),
        None => Some(Err(name)),
    }
}

fn statement_example_of(schema: &Schema, name: &String, scope: &Vec<(String, Option<Types>)>) -> (r: GenResult<String>)
    requires
        statement_example_ends(schema.content@, name@, scope_view(scope@)),
    ensures
        ex_result(r) == statement_example(schema.content@, name@, scope_view(scope@)),
{
    match find_stm(&schema.content, name.as_str()) {
        Some(st) => gen_schema_example(st, 0, schema, scope),
        None => Err(GenError::UnknownReference { name: name.clone() }),
    }
}

/// What the page of a node shows of one endpoint of an edge that leaves or enters it.
pub struct NodeEndpointData {
    /// A link to the page of the edge.
    pub edge: String,
    /// A link to the page of the source node.
    pub source: String,
    /// A link to the page of the target node.
    pub target: String,
    /// The bounds on the edges at the node: outgoing ones at the source, incoming ones at
    /// the target.
    pub bounds: Quantifier,
}

impl View for NodeEndpointData {
    type V = (Seq<char>, Seq<char>, Seq<char>, Quantifier);

    open spec fn view(&self) -> Self::V {
        (self.edge@, self.source@, self.target@, self.bounds)
    }
}

/// The end of an endpoint that the node is on: the source for outgoing edges, else the target.
pub open spec fn end_name(p: EndPoint, outgoing: bool) -> Seq<char> {
    if outgoing {
        p.source@
    } else {
        p.target@
    }
}

pub open spec fn node_endpoint_row(e: Seq<char>, p: EndPoint, outgoing: bool) -> (
    Seq<char>,
    Seq<char>,
    Seq<char>,
    Quantifier,
) {
    (
        md_link("edges"@, e),
        md_link("nodes"@, p.source@),
        md_link("nodes"@, p.target@),
        if outgoing {
            p.outgoing_quantity
        } else {
            p.incoming_quantity
        },
    )
}

/// The rows of the endpoints of the edge `e` that leave (or enter) the node `node`.
pub open spec fn edge_endpoint_rows(e: Seq<char>, ps: Seq<EndPoint>, node: Seq<char>, outgoing: bool) -> Seq<
    (Seq<char>, Seq<char>, Seq<char>, Quantifier),
>
    decreases ps.len(),
{
    if ps.len() == 0 {
        Seq::empty()
    } else {
        edge_endpoint_rows(e, ps.drop_last(), node, outgoing) + if end_name(ps.last(), outgoing) == node {
            seq![node_endpoint_row(e, ps.last(), outgoing)]
        } else {
            Seq::empty()
        }
    }
}

/// The rows of the endpoints of all edges of a schema that leave (or enter) `node`, edge
/// by edge in the order of the schema.
pub open spec fn node_endpoint_rows(c: Seq<SchemaStm>, node: Seq<char>, outgoing: bool) -> Seq<
    (Seq<char>, Seq<char>, Seq<char>, Quantifier),
>
    decreases c.len(),
{
    if c.len() == 0 {
        Seq::empty()
    } else {
        node_endpoint_rows(c.drop_last(), node, outgoing) + match c.last() {
            SchemaStm::Edge(e) => edge_endpoint_rows(e.name@, e.endpoints@, node, outgoing),
            _ => Seq::empty(),
        }
    }
}

pub open spec fn node_endpoint_views(v: Seq<NodeEndpointData>) -> Seq<(Seq<char>, Seq<char>, Seq<char>, Quantifier)> {
    v.map_values(|d: NodeEndpointData| d@)
}

fn push_edge_endpoints(out: &mut Vec<NodeEndpointData>, e: &EdgeExp, node: &str, outgoing: bool)
    ensures
        node_endpoint_views(final(out)@) == node_endpoint_views(old(out)@) + edge_endpoint_rows(
            e.name@,
            e.endpoints@,
            node@,
            outgoing,
        ),
{
    let ps = &e.endpoints;
    let n = ps.len();
    let mut i: usize = 0;
    let ghost start = node_endpoint_views(out@);
    while i < n
        invariant
            n == ps@.len(),
            i <= n,
            node_endpoint_views(out@) == start + edge_endpoint_rows(e.name@, ps@.take(i as int), node@, outgoing),
        decreases n - i,
    {
        let p = &ps[i];
        assert(ps@.take(i + 1).drop_last() =~= ps@.take(i as int));
        let ghost before = node_endpoint_views(out@);
        let end = if outgoing {
            &p.source
        } else {
            &p.target
        };
        if str_equal(end.as_str(), node) {
            let row = NodeEndpointData {
                edge: md_link_of("edges", e.name.as_str()),
                source: md_link_of("nodes", p.source.as_str()),
                target: md_link_of("nodes", p.target.as_str()),
                bounds: if outgoing {
                    p.outgoing_quantity
                } else {
                    p.incoming_quantity
                },
            };
            out.push(row);
            assert(node_endpoint_views(out@) =~= before.push(node_endpoint_row(e.name@, *p, outgoing)));
        } else {
            assert(node_endpoint_views(out@) =~= before);
        }
        i = i + 1;
    }
    assert(ps@.take(n as int) =~= ps@);
}

/// The endpoints of all edges of the schema that leave (`outgoing`) or enter the node `node`.
pub fn node_endpoint_data(schema: &Schema, node: &str, outgoing: bool) -> (r: Vec<NodeEndpointData>)
    ensures
        node_endpoint_views(r@) == node_endpoint_rows(schema.content@, node@, outgoing),
{
    let c = &schema.content;
    let mut r: Vec<NodeEndpointData> = Vec::new();
    let n = c.len();
    let mut i: usize = 0;
    while i < n
        invariant
            n == c@.len(),
            i <= n,
            node_endpoint_views(r@) == node_endpoint_rows(c@.take(i as int), node@, outgoing),
        decreases n - i,
    {
        assert(c@.take(i + 1).drop_last() =~= c@.take(i as int));
        match &c[i] {
            SchemaStm::Edge(e) => {
                push_edge_endpoints(&mut r, e, node, outgoing);
            },
            _ => {
                assert(node_endpoint_views(r@) =~= node_endpoint_views(r@) + Seq::empty());
            },
        }
        i = i + 1;
    }
    assert(c@.take(n as int) =~= c@);
    r
}

/// What the page of a node shows.
pub struct NodePage {
    pub node_name: String,
    pub doc_comments: String,
    pub comments: String,
    pub fields: Vec<FieldData>,
    /// The endpoints of edges that leave the node, edge by edge.
    pub outgoing_endpoints: Vec<NodeEndpointData>,
    /// The endpoints of edges that enter the node, edge by edge.
    pub incoming_endpoints: Vec<NodeEndpointData>,
    /// A json example of the node.
    pub example: String,
}

/// The page of `node` in the schema `c` shows it.
pub open spec fn node_page_is(p: NodePage, node: NodeExp, c: Seq<SchemaStm>) -> bool {
    &&& p.node_name@ == node.name@
    &&& p.doc_comments@ == comment_text(node.comments.doc@)
    &&& p.comments@ == comment_text(node.comments.other@)
    &&& field_views(p.fields@) == field_rows(node.fields@, ref_text(node.name@), c)
    &&& node_endpoint_views(p.outgoing_endpoints@) == node_endpoint_rows(c, node.name@, true)
    &&& node_endpoint_views(p.incoming_endpoints@) == node_endpoint_rows(c, node.name@, false)
}

/// What the page of a node of the schema shows. The example is that of the statement
/// declaring the node's name; the error is that of the example.
pub fn populate_node(node: &NodeExp, schema: &Schema) -> (r: GenResult<NodePage>)
    requires
        statement_example_ends(schema.content@, node.name@, Seq::empty()),
    ensures
        match r {
            Ok(p) => {
                &&& statement_example(schema.content@, node.name@, Seq::empty()) == Some(Ok::<Seq<char>, Seq<char>>(p.example@))
                &&& node_page_is(p, *node, schema.content@)
            },
            Err(e) => ex_result(Err(e)) == statement_example(schema.content@, node.name@, Seq::empty()),
        },
{
    let ref_name = create_ref_name(node.name.as_str());
    let fields = field_data(&node.fields, ref_name.as_str(), schema);
    let outgoing_endpoints = node_endpoint_data(schema, node.name.as_str(), true);
    let incoming_endpoints = node_endpoint_data(schema, node.name.as_str(), false);
    let scope: Vec<(String, Option<Types>)> = Vec::new();
    assert(scope_view(scope@) =~= Seq::empty());
    let example = match statement_example_of(schema, &node.name, &scope) {
        Ok(x) => x,
        Err(e) => {
            return Err(e);
        },
    };
    Ok(NodePage {
        node_name: node.name.clone(),
        doc_comments: comment_of(&node.comments.doc),
        comments: comment_of(&node.comments.other),
        fields,
        outgoing_endpoints,
        incoming_endpoints,
        example,
    })
}

/// What the page of an edge shows of one of its endpoints.
pub struct EndpointData {
    /// A link to the page of the source node.
    pub source: String,
    /// A link to the page of the target node.
    pub target: String,
    pub outgoing_bounds: Quantifier,
    pub incoming_bounds: Quantifier,
}

impl View for EndpointData {
    type V = (Seq<char>, Seq<char>, Quantifier, Quantifier);

    open spec fn view(&self) -> Self::V {
        (self.source@, self.target@, self.outgoing_bounds, self.incoming_bounds)
    }
}

pub open spec fn endpoint_row(p: EndPoint) -> (Seq<char>, Seq<char>, Quantifier, Quantifier) {
    (md_link("nodes"@, p.source@), md_link("nodes"@, p.target@), p.outgoing_quantity, p.incoming_quantity)
}

pub open spec fn endpoint_views(v: Seq<EndpointData>) -> Seq<(Seq<char>, Seq<char>, Quantifier, Quantifier)> {
    v.map_values(|d: EndpointData| d@)
}

fn endpoint_data(ps: &Vec<EndPoint>) -> (r: Vec<EndpointData>)
    ensures
        endpoint_views(r@) == ps@.map_values(|p: EndPoint| endpoint_row(p)),
{
    let mut r: Vec<EndpointData> = Vec::new();
    let n = ps.len();
    let mut i: usize = 0;
    while i < n
        invariant
            n == ps@.len(),
            i <= n,
            endpoint_views(r@) == ps@.take(i as int).map_values(|p: EndPoint| endpoint_row(p)),
        decreases n - i,
    {
        let p = &ps[i];
        let ghost before = endpoint_views(r@);
        r.push(
            EndpointData {
                source: md_link_of("nodes", p.source.as_str()),
                target: md_link_of("nodes", p.target.as_str()),
                outgoing_bounds: p.outgoing_quantity,
                incoming_bounds: p.incoming_quantity,
            },
        );
        proof {
            assert(endpoint_views(r@) =~= before.push(endpoint_row(*p)));
            assert(ps@.take(i + 1) =~= ps@.take(i as int).push(*p));
            assert(ps@.take(i + 1).map_values(|p: EndPoint| endpoint_row(p)) =~= ps@.take(i as int).map_values(
                |p: EndPoint| endpoint_row(p),
            ).push(endpoint_row(*p)));
        }
        i = i + 1;
    }
    assert(ps@.take(n as int) =~= ps@);
    r
}

/// What the page of an edge shows.
pub struct EdgePage {
    pub edge_name: String,
    pub doc_comments: String,
    pub comments: String,
    pub fields: Vec<FieldData>,
    pub endpoints: Vec<EndpointData>,
    /// A json example of the edge.
    pub example: String,
}

/// The page of `edge` in the schema `c` shows it.
pub open spec fn edge_page_is(p: EdgePage, edge: EdgeExp, c: Seq<SchemaStm>) -> bool {
    &&& p.edge_name@ == edge.name@
    &&& p.doc_comments@ == comment_text(edge.comments.doc@)
    &&& p.comments@ == comment_text(edge.comments.other@)
    &&& field_views(p.fields@) == field_rows(edge.fields@, ref_text(edge.name@), c)
    &&& endpoint_views(p.endpoints@) == edge.endpoints@.map_values(|e: EndPoint| endpoint_row(e))
}

/// What the page of an edge of the schema shows. The example is that of the statement
/// declaring the edge's name; the error is that of the example.
pub fn populate_edge(edge: &EdgeExp, schema: &Schema) -> (r: GenResult<EdgePage>)
    requires
        statement_example_ends(schema.content@, edge.name@, Seq::empty()),
    ensures
        match r {
            Ok(p) => {
                &&& statement_example(schema.content@, edge.name@, Seq::empty()) == Some(Ok::<Seq<char>, Seq<char>>(p.example@))
                &&& edge_page_is(p, *edge, schema.content@)
            },
            Err(e) => ex_result(Err(e)) == statement_example(schema.content@, edge.name@, Seq::empty()),
        },
{
    let ref_name = create_ref_name(edge.name.as_str());
    let fields = field_data(&edge.fields, ref_name.as_str(), schema);
    let endpoints = endpoint_data(&edge.endpoints);
    let scope: Vec<(String, Option<Types>)> = Vec::new();
    assert(scope_view(scope@) =~= Seq::empty());
    let example = match statement_example_of(schema, &edge.name, &scope) {
        Ok(x) => x,
        Err(e) => {
            return Err(e);
        },
    };
    Ok(EdgePage {
        edge_name: edge.name.clone(),
        doc_comments: comment_of(&edge.comments.doc),
        comments: comment_of(&edge.comments.other),
        fields,
        endpoints,
        example,
    })
}

/// The title of a generic statement: its name, then its letters between escaped angle
/// brackets.
pub open spec fn generic_title(name: Seq<char>, generics: Seq<String>) -> Seq<char> {
    if generics.len() == 0 {
        name
    } else {
        name + "\\<"@ + join_texts(texts(generics), ", "@) + "\\>"@
    }
}

fn generic_title_of(name: &String, generics: &Vec<String>) -> (r: String)
    ensures
        r@ == generic_title(name@, generics@),
{
    let mut r = name.clone();
    if generics.len() > 0 {
        r.append("\\<");
        r.append(join_strings(generics, ", ").as_str());
        r.append("\\>");
    }
    r
}

/// The scope of a generic statement's own page: each letter stands for itself.
pub open spec fn letter_scope(generics: Seq<String>) -> ScopeView {
    generics.map_values(|g: String| (g@, None))
}

fn letter_scope_of(generics: &Vec<String>) -> (r: Vec<(String, Option<Types>)>)
    ensures
        scope_view(r@) == letter_scope(generics@),
{
    let mut r: Vec<(String, Option<Types>)> = Vec::new();
    let n = generics.len();
    let mut i: usize = 0;
    while i < n
        invariant
            n == generics@.len(),
            i <= n,
            scope_view(r@) == letter_scope(generics@.take(i as int)),
        decreases n - i,
    {
        let ghost before = scope_view(r@);
        r.push((generics[i].clone(), None));
        proof {
            assert(scope_view(r@) =~= before.push((generics@[i as int]@, None)));
            assert(generics@.take(i + 1) =~= generics@.take(i as int).push(generics@[i as int]));
            assert(letter_scope(generics@.take(i + 1)) =~= letter_scope(generics@.take(i as int)).push(
                (generics@[i as int]@, None),
            ));
        }
        i = i + 1;
    }
    assert(generics@.take(n as int) =~= generics@);
    r
}

/// What the page of a struct shows.
pub struct StructPage {
    /// The name of the struct, with its generic letters.
    pub struct_name: String,
    pub doc_comments: String,
    pub comments: String,
    pub fields: Vec<FieldData>,
    /// A json example of the struct.
    pub example: String,
}

/// The page of `st` in the schema `c` shows it.
pub open spec fn struct_page_is(p: StructPage, st: StructExp, c: Seq<SchemaStm>) -> bool {
    &&& p.struct_name@ == generic_title(st.name@, st.generics@)
    &&& p.doc_comments@ == comment_text(st.comments.doc@)
    &&& p.comments@ == comment_text(st.comments.other@)
    &&& field_views(p.fields@) == field_rows(st.fields@, ref_text(generic_title(st.name@, st.generics@)), c)
}

/// What the page of a struct of the schema shows. The example is that of the statement
/// declaring the struct's name, each generic letter standing for itself; the error is
/// that of the example.
pub fn populate_struct(st: &StructExp, schema: &Schema) -> (r: GenResult<StructPage>)
    requires
        statement_example_ends(schema.content@, st.name@, letter_scope(st.generics@)),
    ensures
        match r {
            Ok(p) => {
                &&& statement_example(schema.content@, st.name@, letter_scope(st.generics@)) == Some(
                    Ok::<Seq<char>, Seq<char>>(p.example@),
                )
                &&& struct_page_is(p, *st, schema.content@)
            },
            Err(e) => ex_result(Err(e)) == statement_example(schema.content@, st.name@, letter_scope(st.generics@)),
        },
{
    let struct_name = generic_title_of(&st.name, &st.generics);
    let ref_name = create_ref_name(struct_name.as_str());
    let fields = field_data(&st.fields, ref_name.as_str(), schema);
    let scope = letter_scope_of(&st.generics);
    let example = match statement_example_of(schema, &st.name, &scope) {
        Ok(x) => x,
        Err(e) => {
            return Err(e);
        },
    };
    Ok(StructPage {
        struct_name,
        doc_comments: comment_of(&st.comments.doc),
        comments: comment_of(&st.comments.other),
        fields,
        example,
    })
}

/// The shape of an enum variant.
#[derive(PartialEq, Eq, Structural, Debug, Clone, Copy)]
pub enum VarientType {
    Unit,
    Opaque,
    Struct,
}

/// What the page of an enum type shows of one variant; the parts that do not apply to its
/// shape are absent.
pub struct EnumData {
    pub name: String,
    pub varient_type: VarientType,
    /// The type an opaque variant holds.
    pub root_ty: Option<String>,
    /// The fields of a struct variant.
    pub root_fields: Option<Vec<FieldData>>,
    pub doc_comments: String,
    pub comments: String,
    /// A json example of the variant.
    pub example: String,
}

/// `d` shows the variant `v` of an enum whose anchor is `ref_name`.
#[verifier::opaque]
pub open spec fn enum_data_is(d: EnumData, v: EnumVarient, ref_name: Seq<char>, c: Seq<SchemaStm>) -> bool {
    match v {
        EnumVarient::Unit { name, comments, .. } => {
            &&& d.name@ == name@
            &&& d.varient_type == VarientType::Unit
            &&& d.root_ty is None
            &&& d.root_fields is None
            &&& d.doc_comments@ == comment_text(comments.doc@)
            &&& d.comments@ == comment_text(comments.other@)
        },
        EnumVarient::Opaque { name, comments, ty, .. } => {
            &&& d.name@ == name@
            &&& d.varient_type == VarientType::Opaque
            &&& d.root_ty matches Some(t) && t@ == type_def(ty, ref_name, c)
            &&& d.root_fields is None
            &&& d.doc_comments@ == comment_text(comments.doc@)
            &&& d.comments@ == comment_text(comments.other@)
        },
        EnumVarient::Struct { name, comments, fields, .. } => {
            &&& d.name@ == name@
            &&& d.varient_type == VarientType::Struct
            &&& d.root_ty is None
            &&& d.root_fields matches Some(fs) && field_views(fs@) == field_rows(fields@, ref_name, c)
            &&& d.doc_comments@ == comment_text(comments.doc@)
            &&& d.comments@ == comment_text(comments.other@)
        },
    }
}

/// The examples of the variants before the `i`-th all succeed.
pub open spec fn examples_fine_before(vs: Seq<EnumVarient>, i: int, c: Seq<SchemaStm>, scope: ScopeView) -> bool {
    forall|j: int| 0 <= j < i ==> #[trigger] variant_example(vs[j], c, scope) matches Some(Ok(_))
}

/// The json example of a variant, at no indentation.
pub open spec fn variant_example(v: EnumVarient, c: Seq<SchemaStm>, scope: ScopeView) -> Example {
    ex_variant(varient_example_fuel(v, 0, c, scope), v, 0, c, scope)
}

fn enum_data_of(v: &EnumVarient, ref_name: &str, schema: &Schema, example: String) -> (r: EnumData)
    ensures
        enum_data_is(r, *v, ref_name@, schema.content@),
        r.example == example,
{
    reveal(enum_data_is);
    match v {
        EnumVarient::Unit { name, comments, .. } => EnumData {
            name: name.clone(),
            varient_type: VarientType::Unit,
            root_ty: None,
            root_fields: None,
            doc_comments: comment_of(&comments.doc),
            comments: comment_of(&comments.other),
            example,
        },
        EnumVarient::Opaque { name, comments, ty, .. } => {
            let t = match gen_type_def(ty, ref_name, schema) {
                Ok(d) => d,
                Err(_) => String::new(),
            };
            EnumData {
                name: name.clone(),
                varient_type: VarientType::Opaque,
                root_ty: Some(t),
                root_fields: None,
                doc_comments: comment_of(&comments.doc),
                comments: comment_of(&comments.other),
                example,
            }
        },
        EnumVarient::Struct { name, comments, fields, .. } => EnumData {
            name: name.clone(),
            varient_type: VarientType::Struct,
            root_ty: None,
            root_fields: Some(field_data(fields, ref_name, schema)),
            doc_comments: comment_of(&comments.doc),
            comments: comment_of(&comments.other),
            example,
        },
    }
}

/// What the page of an enum type shows.
pub struct TypePage {
    /// The name of the enum, with its generic letters.
    pub enum_name: String,
    pub doc_comments: String,
    pub comments: String,
    pub varients: Vec<EnumData>,
}

fn variant_row(v: &EnumVarient, ref_name: &str, schema: &Schema, scope: &Vec<(String, Option<Types>)>) -> (r:
    GenResult<EnumData>)
    requires
        varient_example_ends(*v, 0, schema.content@, scope_view(scope@)),
    ensures
        match r {
            Ok(d) => {
                &&& enum_data_is(d, *v, ref_name@, schema.content@)
                &&& variant_example(*v, schema.content@, scope_view(scope@)) == Some(Ok::<Seq<char>, Seq<char>>(d.example@))
            },
            Err(e) => ex_result(Err(e)) == variant_example(*v, schema.content@, scope_view(scope@)),
        },
{
    match gen_varient_example(v, 0, schema, scope) {
        Ok(example) => Ok(enum_data_of(v, ref_name, schema, example)),
        Err(e) => Err(e),
    }
}

fn variant_rows(vs: &Vec<EnumVarient>, ref_name: &str, schema: &Schema, scope: &Vec<(String, Option<Types>)>) -> (r:
    GenResult<Vec<EnumData>>)
    requires
        forall|i: int| 0 <= i < vs@.len() ==> varient_example_ends(#[trigger] vs@[i], 0, schema.content@, scope_view(scope@)),
    ensures
        match r {
            Ok(ds) => {
                &&& ds@.len() == vs@.len()
                &&& forall|i: int| 0 <= i < vs@.len() ==> enum_data_is(#[trigger] ds@[i], vs@[i], ref_name@, schema.content@)
                &&& forall|i: int|
                    0 <= i < vs@.len() ==> #[trigger] variant_example(vs@[i], schema.content@, scope_view(scope@)) == Some(
                        Ok::<Seq<char>, Seq<char>>(ds@[i].example@),
                    )
            },
            Err(e) => exists|i: int|
                0 <= i < vs@.len() && examples_fine_before(vs@, i, schema.content@, scope_view(scope@)) && ex_result(
                    Err(e),
                ) == variant_example(#[trigger] vs@[i], schema.content@, scope_view(scope@)),
        },
{
    let ghost c = schema.content@;
    let ghost sc = scope_view(scope@);
    let n = vs.len();
    let mut out: Vec<EnumData> = Vec::new();
    let mut i: usize = 0;
    while i < n
        invariant
            n == vs@.len(),
            i <= n,
            out@.len() == i,
            c == schema.content@,
            sc == scope_view(scope@),
            forall|k: int| 0 <= k < n ==> varient_example_ends(#[trigger] vs@[k], 0, c, sc),
            forall|k: int| 0 <= k < i ==> enum_data_is(#[trigger] out@[k], vs@[k], ref_name@, c),
            forall|k: int|
                0 <= k < i ==> #[trigger] variant_example(vs@[k], c, sc) == Some(
                    Ok::<Seq<char>, Seq<char>>(out@[k].example@),
                ),
        decreases n - i,
    {
        match variant_row(&vs[i], ref_name, schema, scope) {
            Ok(d) => {
                out.push(d);
            },
            Err(e) => {
                proof {
                    assert(examples_fine_before(vs@, i as int, c, sc));
                }
                return Err(e);
            },
        }
        i = i + 1;
    }
    Ok(out)
}

/// What the page of an enum type of the schema shows; each variant's example has each
/// generic letter standing for itself. The error is that of the first variant whose
/// example fails.
pub fn populate_types(en: &EnumExp, schema: &Schema) -> (r: GenResult<TypePage>)
    requires
        forall|i: int|
            0 <= i < en.varients@.len() ==> varient_example_ends(
                #[trigger] en.varients@[i],
                0,
                schema.content@,
                letter_scope(en.generics@),
            ),
    ensures
        match r {
            Ok(p) => {
                &&& p.enum_name@ == generic_title(en.name@, en.generics@)
                &&& p.doc_comments@ == comment_text(en.comments.doc@)
                &&& p.comments@ == comment_text(en.comments.other@)
                &&& p.varients@.len() == en.varients@.len()
                &&& forall|i: int|
                    0 <= i < en.varients@.len() ==> enum_data_is(
                        #[trigger] p.varients@[i],
                        en.varients@[i],
                        ref_text(generic_title(en.name@, en.generics@)),
                        schema.content@,
                    )
                &&& forall|i: int|
                    0 <= i < en.varients@.len() ==> #[trigger] variant_example(
                        en.varients@[i],
                        schema.content@,
                        letter_scope(en.generics@),
                    ) == Some(Ok::<Seq<char>, Seq<char>>(p.varients@[i].example@))
            },
            Err(e) => exists|i: int|
                0 <= i < en.varients@.len() && examples_fine_before(
                    en.varients@,
                    i,
                    schema.content@,
                    letter_scope(en.generics@),
                ) && ex_result(Err(e)) == variant_example(
                    #[trigger] en.varients@[i],
                    schema.content@,
                    letter_scope(en.generics@),
                ),
        },
{
    let enum_name = generic_title_of(&en.name, &en.generics);
    let ref_name = create_ref_name(enum_name.as_str());
    let scope = letter_scope_of(&en.generics);
    let varients = match variant_rows(&en.varients, ref_name.as_str(), schema, &scope) {
        Ok(ds) => ds,
        Err(e) => {
            return Err(e);
        },
    };
    Ok(TypePage {
        enum_name,
        doc_comments: comment_of(&en.comments.doc),
        comments: comment_of(&en.comments.other),
        varients,
    })
}

/// The page of a statement that has one.
pub enum StatementPage {
    Node(NodePage),
    Edge(EdgePage),
    Struct(StructPage),
    Type(TypePage),
}

/// The examples of every statement of the schema that has a page end.
pub open spec fn page_examples_end(st: SchemaStm, c: Seq<SchemaStm>) -> bool {
    match st {
        SchemaStm::Node(n) => statement_example_ends(c, n.name@, Seq::empty()),
        SchemaStm::Edge(e) => statement_example_ends(c, e.name@, Seq::empty()),
        SchemaStm::Struct(x) => statement_example_ends(c, x.name@, letter_scope(x.generics@)),
        SchemaStm::Enum(en) => forall|i: int|
            0 <= i < en.varients@.len() ==> varient_example_ends(#[trigger] en.varients@[i], 0, c, letter_scope(en.generics@)),
        SchemaStm::Import(_) => true,
    }
}

/// The page of a statement is made without error.
pub open spec fn page_succeeds(st: SchemaStm, c: Seq<SchemaStm>) -> bool {
    match st {
        SchemaStm::Node(n) => statement_example(c, n.name@, Seq::empty()) matches Some(Ok(_)),
        SchemaStm::Edge(e) => statement_example(c, e.name@, Seq::empty()) matches Some(Ok(_)),
        SchemaStm::Struct(x) => statement_example(c, x.name@, letter_scope(x.generics@)) matches Some(Ok(_)),
        SchemaStm::Enum(en) => examples_fine_before(en.varients@, en.varients@.len() as int, c, letter_scope(en.generics@)),
        SchemaStm::Import(_) => true,
    }
}

/// `e` is the error made when the page of `st` is made.
pub open spec fn page_error(st: SchemaStm, e: GenError, c: Seq<SchemaStm>) -> bool {
    match st {
        SchemaStm::Node(n) => ex_result(Err(e)) == statement_example(c, n.name@, Seq::empty()),
        SchemaStm::Edge(x) => ex_result(Err(e)) == statement_example(c, x.name@, Seq::empty()),
        SchemaStm::Struct(x) => ex_result(Err(e)) == statement_example(c, x.name@, letter_scope(x.generics@)),
        SchemaStm::Enum(en) => exists|i: int|
            0 <= i < en.varients@.len() && examples_fine_before(en.varients@, i, c, letter_scope(en.generics@))
                && ex_result(Err(e)) == variant_example(#[trigger] en.varients@[i], c, letter_scope(en.generics@)),
        SchemaStm::Import(_) => false,
    }
}

/// `p` is the page of `st` in the schema `c`: none for an import.
pub open spec fn page_is(p: Option<StatementPage>, st: SchemaStm, c: Seq<SchemaStm>) -> bool {
    match (st, p) {
        (SchemaStm::Node(n), Some(StatementPage::Node(q))) => {
            &&& statement_example(c, n.name@, Seq::empty()) == Some(Ok::<Seq<char>, Seq<char>>(q.example@))
            &&& node_page_is(q, n, c)
        },
        (SchemaStm::Edge(x), Some(StatementPage::Edge(q))) => {
            &&& statement_example(c, x.name@, Seq::empty()) == Some(Ok::<Seq<char>, Seq<char>>(q.example@))
            &&& edge_page_is(q, x, c)
        },
        (SchemaStm::Struct(x), Some(StatementPage::Struct(q))) => {
            &&& statement_example(c, x.name@, letter_scope(x.generics@)) == Some(Ok::<Seq<char>, Seq<char>>(q.example@))
            &&& struct_page_is(q, x, c)
        },
        (SchemaStm::Enum(en), Some(StatementPage::Type(q))) => {
            &&& q.enum_name@ == generic_title(en.name@, en.generics@)
            &&& q.doc_comments@ == comment_text(en.comments.doc@)
            &&& q.comments@ == comment_text(en.comments.other@)
            &&& q.varients@.len() == en.varients@.len()
            &&& forall|i: int|
                0 <= i < en.varients@.len() ==> enum_data_is(
                    #[trigger] q.varients@[i],
                    en.varients@[i],
                    ref_text(generic_title(en.name@, en.generics@)),
                    c,
                )
            &&& forall|i: int|
                0 <= i < en.varients@.len() ==> #[trigger] variant_example(en.varients@[i], c, letter_scope(en.generics@))
                    == Some(Ok::<Seq<char>, Seq<char>>(q.varients@[i].example@))
        },
        (SchemaStm::Import(_), None) => true,
        _ => false,
    }
}

fn statement_page(st: &SchemaStm, schema: &Schema) -> (r: GenResult<Option<StatementPage>>)
    requires
        page_examples_end(*st, schema.content@),
    ensures
        match r {
            Ok(p) => page_succeeds(*st, schema.content@) && page_is(p, *st, schema.content@),
            Err(e) => page_error(*st, e, schema.content@),
        },
{
    match st {
        SchemaStm::Node(n) => match populate_node(n, schema) {
            Ok(p) => Ok(Some(StatementPage::Node(p))),
            Err(e) => Err(e),
        },
        SchemaStm::Edge(x) => match populate_edge(x, schema) {
            Ok(p) => Ok(Some(StatementPage::Edge(p))),
            Err(e) => Err(e),
        },
        SchemaStm::Struct(x) => match populate_struct(x, schema) {
            Ok(p) => Ok(Some(StatementPage::Struct(p))),
            Err(e) => Err(e),
        },
        SchemaStm::Enum(en) => match populate_types(en, schema) {
            Ok(p) => {
                proof {
                    assert forall|j: int| 0 <= j < en.varients@.len() implies #[trigger] variant_example(
                        en.varients@[j],
                        schema.content@,
                        letter_scope(en.generics@),
                    ) matches Some(Ok(_)) by {
                        assert(variant_example(en.varients@[j], schema.content@, letter_scope(en.generics@)) == Some(
                            Ok::<Seq<char>, Seq<char>>(p.varients@[j].example@),
                        ));
                    }
                }
                Ok(Some(StatementPage::Type(p)))
            },
            Err(e) => Err(e),
        },
        SchemaStm::Import(_) => Ok(None),
    }
}

/// The pages of the statements of a schema, one for each statement in its order; an import
/// has none, as the page about the imports lists them. The error is that of the first
/// statement whose page fails.
pub fn populate_statement_context(schema: &Schema) -> (r: GenResult<Vec<Option<StatementPage>>>)
    requires
        forall|i: int| 0 <= i < schema.content@.len() ==> page_examples_end(#[trigger] schema.content@[i], schema.content@),
    ensures
        match r {
            Ok(ps) => {
                &&& ps@.len() == schema.content@.len()
                &&& forall|i: int|
                    0 <= i < ps@.len() ==> page_is(#[trigger] ps@[i], schema.content@[i], schema.content@)
            },
            Err(e) => exists|i: int|
                0 <= i < schema.content@.len() && (forall|j: int|
                    0 <= j < i ==> page_succeeds(#[trigger] schema.content@[j], schema.content@)) && page_error(
                    #[trigger] schema.content@[i],
                    e,
                    schema.content@,
                ),
        },
{
    let c = &schema.content;
    let n = c.len();
    let mut out: Vec<Option<StatementPage>> = Vec::new();
    let mut i: usize = 0;
    while i < n
        invariant
            n == c@.len(),
            c@ == schema.content@,
            i <= n,
            out@.len() == i,
            forall|k: int| 0 <= k < n ==> page_examples_end(#[trigger] c@[k], c@),
            forall|k: int| 0 <= k < i ==> page_is(#[trigger] out@[k], c@[k], c@),
            forall|k: int| 0 <= k < i ==> page_succeeds(#[trigger] c@[k], c@),
        decreases n - i,
    {
        match statement_page(&c[i], schema) {
            Ok(p) => {
                out.push(p);
            },
            Err(e) => {
                return Err(e);
            },
        }
        i = i + 1;
    }
    Ok(out)
}

/// The schemas that are not heads, in the order they were added.
pub open spec fn non_head_order(p: Project) -> Seq<Seq<char>> {
    p.schema_order().filter(|k: Seq<char>| !leads_nowhere(p.tree(), k, Direction::Forward))
}

fn contains_name(v: &Vec<String>, name: &str) -> (r: bool)
    ensures
        r == texts(v@).contains(name@),
{
    let n = v.len();
    let mut i: usize = 0;
    while i < n
        invariant
            n == v@.len(),
            i <= n,
            forall|j: int| 0 <= j < i ==> v@[j]@ != name@,
        decreases n - i,
    {
        if str_equal(v[i].as_str(), name) {
            assert(texts(v@)[i as int] == name@);
            return true;
        }
        i = i + 1;
    }
    proof {
        if texts(v@).contains(name@) {
            let j = choose|j: int| 0 <= j < texts(v@).len() && texts(v@)[j] == name@;
            assert(v@[j]@ == name@);
        }
    }
    false
}

/// The schemas that get a section of the book: the heads first, as main sections, then
/// the others; each in the order the schemas were added.
pub fn populate_schema_context(project: &Project) -> (r: (Vec<String>, Vec<String>))
    ensures
        texts(r.0@) == head_order(*project),
        texts(r.1@) == non_head_order(*project),
{
    let heads = project.find_heads();
    let all = project.iter_schema();
    let ghost order = project.schema_order();
    let ghost pred = |k: Seq<char>| leads_nowhere(project.tree(), k, Direction::Forward);
    let ghost npred = |k: Seq<char>| !leads_nowhere(project.tree(), k, Direction::Forward);
    assert(texts(all@) =~= order);
    let mut others: Vec<String> = Vec::new();
    let n = all.len();
    let mut i: usize = 0;
    while i < n
        invariant
            n == all@.len(),
            i <= n,
            texts(all@) == order,
            order == project.schema_order(),
            texts(heads@) == order.filter(pred),
            pred == (|k: Seq<char>| leads_nowhere(project.tree(), k, Direction::Forward)),
            npred == (|k: Seq<char>| !leads_nowhere(project.tree(), k, Direction::Forward)),
            texts(others@) == order.take(i as int).filter(npred),
        decreases n - i,
    {
        let name = &all[i];
        proof {
            assert(order[i as int] == name@);
            assert(order.take(i + 1) =~= order.take(i as int).push(name@));
            order.take(i as int).lemma_filter_push(name@, npred);
            if pred(name@) {
                order.lemma_filter_contains(pred, i as int);
            }
            if order.filter(pred).contains(name@) {
                let j = choose|j: int| 0 <= j < order.filter(pred).len() && order.filter(pred)[j] == name@;
                order.lemma_filter_pred(pred, j);
            }
        }
        if !contains_name(&heads, name.as_str()) {
            let ghost before = texts(others@);
            others.push(name.clone());
            assert(texts(others@) =~= before.push(name@));
        }
        i = i + 1;
    }
    assert(order.take(n as int) =~= order);
    (heads, others)
}


/// The example came to an end: it is no error of a budget that ran out.
fn finished(r: &GenResult<String>) -> (b: bool)
    ensures
        b == (ex_result(*r) is Some),
{
    match r {
        Ok(_) => true,
        Err(GenError::UnknownReference { .. }) => true,
        Err(_) => false,
    }
}

/// Whether the example of the statement declaring `name` ends within `budget` steps;
/// when it does, `statement_example_ends` holds of it.
fn statement_ends_within(schema: &Schema, name: &String, scope: &Vec<(String, Option<Types>)>, budget: usize) -> (r:
    bool)
    requires
        fits(0, budget as nat),
    ensures
        r ==> statement_example_ends(schema.content@, name@, scope_view(scope@)),
{
    match find_stm(&schema.content, name.as_str()) {
        Some(st) => {
            let e = gen_schema_example_within(st, 0, schema, scope, budget);
            finished(&e)
        },
        None => true,
    }
}

/// Whether the examples of every statement of `schema` that has a page end within `budget`
/// steps. When they do, the pages of the schema can be made: `populate_statement_context`
/// may be called on it. A statement whose type refers to itself without end never does.
pub fn page_examples_end_within(schema: &Schema, budget: usize) -> (r: bool)
    requires
        fits(0, budget as nat),
    ensures
        r ==> forall|i: int|
            0 <= i < schema.content@.len() ==> page_examples_end(#[trigger] schema.content@[i], schema.content@),
{
    let n = schema.content.len();
    let mut i: usize = 0;
    while i < n
        invariant
            n == schema.content@.len(),
            i <= n,
            fits(0, budget as nat),
            forall|j: int| 0 <= j < i ==> page_examples_end(#[trigger] schema.content@[j], schema.content@),
        decreases n - i,
    {
        let ok = match &schema.content[i] {
            SchemaStm::Node(x) => {
                let empty: Vec<(String, Option<Types>)> = Vec::new();
                assert(scope_view(empty@) =~= Seq::empty());
                statement_ends_within(schema, &x.name, &empty, budget)
            },
            SchemaStm::Edge(x) => {
                let empty: Vec<(String, Option<Types>)> = Vec::new();
                assert(scope_view(empty@) =~= Seq::empty());
                statement_ends_within(schema, &x.name, &empty, budget)
            },
            SchemaStm::Struct(x) => {
                let scope = letter_scope_of(&x.generics);
                statement_ends_within(schema, &x.name, &scope, budget)
            },
            SchemaStm::Enum(en) => {
                let scope = letter_scope_of(&en.generics);
                let m = en.varients.len();
                let mut k: usize = 0;
                let mut all = true;
                while k < m && all
                    invariant
                        m == en.varients@.len(),
                        k <= m,
                        fits(0, budget as nat),
                        scope_view(scope@) == letter_scope(en.generics@),
                        all ==> forall|j: int|
                            0 <= j < k ==> varient_example_ends(
                                #[trigger] en.varients@[j],
                                0,
                                schema.content@,
                                letter_scope(en.generics@),
                            ),
                    decreases m - k + (if all { 1int } else { 0int }),
                {
                    let e = gen_varient_example_within(&en.varients[k], 0, schema, &scope, budget);
                    if finished(&e) {
                        k = k + 1;
                    } else {
                        all = false;
                    }
                }
                all
            },
            SchemaStm::Import(_) => true,
        };
        if !ok {
            return false;
        }
        i = i + 1;
    }
    true
}

} // verus!
