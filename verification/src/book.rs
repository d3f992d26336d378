use vstd::prelude::*;
use vstd::string::*;

use crate::error::GenResult;
use crate::paths::{join_path, spec_join_path};

verus! {

/// `n` times five spaces: the indentation of the json examples in the book.
pub open spec fn example_indent(n: nat) -> Seq<char>
    decreases n,
{
    if n == 0 {
        Seq::empty()
    } else {
        example_indent((n - 1) as nat) + "     "@
    }
}

pub(crate) fn write_example_indent(s: &mut String, n: usize)
    ensures
        final(s)@ == old(s)@ + example_indent(n as nat),
{
    let ghost start = s@;
    let mut i: usize = 0;
    while i < n
        invariant
            i <= n,
            s@ == start + example_indent(i as nat),
        decreases n - i,
    {
        s.append("     ");
        i = i + 1;
    }
}

/// A json object with the one entry `key`, whose value is `value`, at indentation `indent`.
pub open spec fn keyed_field_example(key: Seq<char>, value: Seq<char>, indent: nat) -> Seq<char> {
    "{\n"@ + example_indent(indent + 1) + "\""@ + key + "\": "@ + value + "\n"@ + example_indent(indent)
        + "}"@
}

/// A json object with the one entry `key`, whose value is `value`, at indentation `indent`.
pub fn gen_keyed_field_example(key: String, value: String, indent: usize) -> (r: GenResult<String>)
    requires
        indent < usize::MAX,
    ensures
        r matches Ok(s) && s@ == keyed_field_example(key@, value@, indent as nat),
{
    let mut s = String::from_str("{\n");
    write_example_indent(&mut s, indent + 1);
    s.append("\"");
    s.append(key.as_str());
    s.append("\": ");
    s.append(value.as_str());
    s.append("\n");
    write_example_indent(&mut s, indent);
    s.append("}");
    assert(s@ =~= keyed_field_example(key@, value@, indent as nat));
    Ok(s)
}

/// A page of the book about one statement: its title and its path within the schema's folder.
pub struct StatementDocContext {
    pub title: String,
    pub path: String,
}

/// The pages of a list, as (title, path).
pub open spec fn pages(v: Seq<StatementDocContext>) -> Seq<(Seq<char>, Seq<char>)> {
    v.map_values(|p: StatementDocContext| (p.title@, p.path@))
}

/// The part of the book about one schema: its page, and the pages of its statements by kind.
pub struct SchemaDocContext {
    title: String,
    path: String,
    pub schema_path: String,
    nodes: Vec<StatementDocContext>,
    edges: Vec<StatementDocContext>,
    types: Vec<StatementDocContext>,
    structs: Vec<StatementDocContext>,
    imports: Vec<StatementDocContext>,
}

/// The path of a statement's page within the folder of its kind.
pub open spec fn section_path(kind: Seq<char>, title: Seq<char>) -> Seq<char> {
    kind + "/"@ + title + ".md"@
}

impl SchemaDocContext {
    pub closed spec fn title_text(self) -> Seq<char> {
        self.title@
    }

    pub closed spec fn schema_path_text(self) -> Seq<char> {
        self.schema_path@
    }

    pub closed spec fn path_text(self) -> Seq<char> {
        self.path@
    }

    pub closed spec fn node_pages(self) -> Seq<(Seq<char>, Seq<char>)> {
        pages(self.nodes@)
    }

    pub closed spec fn edge_pages(self) -> Seq<(Seq<char>, Seq<char>)> {
        pages(self.edges@)
    }

    pub closed spec fn type_pages(self) -> Seq<(Seq<char>, Seq<char>)> {
        pages(self.types@)
    }

    pub closed spec fn struct_pages(self) -> Seq<(Seq<char>, Seq<char>)> {
        pages(self.structs@)
    }

    pub closed spec fn import_pages(self) -> Seq<(Seq<char>, Seq<char>)> {
        pages(self.imports@)
    }

    /// The part of the book about the schema `title`, kept in the folder of that name in
    /// `book_src_path`; its page is `<title>.md`.
    pub fn new(title: String, book_src_path: &str) -> (r: Self)
        ensures
            r.title_text() == title@,
            r.path_text() == title@ + ".md"@,
            r.schema_path_text() == spec_join_path(book_src_path@, title@),
            r.node_pages().len() == 0,
            r.edge_pages().len() == 0,
            r.type_pages().len() == 0,
            r.struct_pages().len() == 0,
            r.import_pages().len() == 0,
    {
        let schema_path = join_path(book_src_path, title.as_str());
        let mut path = title.clone();
        path.append(".md");
        SchemaDocContext {
            title,
            path,
            schema_path,
            nodes: Vec::new(),
            edges: Vec::new(),
            types: Vec::new(),
            structs: Vec::new(),
            imports: Vec::new(),
        }
    }

    fn add_section(title: String, schema_path: &str, kind: &str, list: &mut Vec<StatementDocContext>) -> (r:
        String)
        ensures
            pages(final(list)@) == pages(old(list)@).push((title@, section_path(kind@, title@))),
            r@ == spec_join_path(schema_path@, section_path(kind@, title@)),
    {
        let mut relative = String::from_str(kind);
        relative.append("/");
        relative.append(title.as_str());
        relative.append(".md");
        assert(relative@ =~= section_path(kind@, title@));
        let file = join_path(schema_path, relative.as_str());
        let ghost before = list@;
        list.push(StatementDocContext { title, path: relative });
        assert(pages(list@) =~= pages(before).push((title@, section_path(kind@, title@))));
        file
    }

    /// Add the page of the node `title`; gives the file its content is written to.
    pub fn add_node_section(&mut self, title: String) -> (r: String)
        ensures
            final(self).node_pages() == old(self).node_pages().push((title@, section_path("nodes"@, title@))),
            r@ == spec_join_path(old(self).schema_path_text(), section_path("nodes"@, title@)),
            final(self).edge_pages() == old(self).edge_pages(),
            final(self).type_pages() == old(self).type_pages(),
            final(self).struct_pages() == old(self).struct_pages(),
            final(self).import_pages() == old(self).import_pages(),
            final(self).schema_path_text() == old(self).schema_path_text(),
            final(self).title_text() == old(self).title_text(),
            final(self).path_text() == old(self).path_text(),
    {
        SchemaDocContext::add_section(title, self.schema_path.as_str(), "nodes", &mut self.nodes)
    }

    /// Add the page of the edge `title`; gives the file its content is written to.
    pub fn add_edge_section(&mut self, title: String) -> (r: String)
        ensures
            final(self).edge_pages() == old(self).edge_pages().push((title@, section_path("edges"@, title@))),
            r@ == spec_join_path(old(self).schema_path_text(), section_path("edges"@, title@)),
            final(self).node_pages() == old(self).node_pages(),
            final(self).type_pages() == old(self).type_pages(),
            final(self).struct_pages() == old(self).struct_pages(),
            final(self).import_pages() == old(self).import_pages(),
            final(self).schema_path_text() == old(self).schema_path_text(),
            final(self).title_text() == old(self).title_text(),
            final(self).path_text() == old(self).path_text(),
    {
        SchemaDocContext::add_section(title, self.schema_path.as_str(), "edges", &mut self.edges)
    }

    /// Add the page of the struct `title`; gives the file its content is written to.
    pub fn add_struct_section(&mut self, title: String) -> (r: String)
        ensures
            final(self).struct_pages() == old(self).struct_pages().push((title@, section_path("structs"@, title@))),
            r@ == spec_join_path(old(self).schema_path_text(), section_path("structs"@, title@)),
            final(self).node_pages() == old(self).node_pages(),
            final(self).edge_pages() == old(self).edge_pages(),
            final(self).type_pages() == old(self).type_pages(),
            final(self).import_pages() == old(self).import_pages(),
            final(self).schema_path_text() == old(self).schema_path_text(),
            final(self).title_text() == old(self).title_text(),
            final(self).path_text() == old(self).path_text(),
    {
        SchemaDocContext::add_section(title, self.schema_path.as_str(), "structs", &mut self.structs)
    }

    /// Add the page of the type `title`; gives the file its content is written to.
    pub fn add_type_section(&mut self, title: String) -> (r: String)
        ensures
            final(self).type_pages() == old(self).type_pages().push((title@, section_path("types"@, title@))),
            r@ == spec_join_path(old(self).schema_path_text(), section_path("types"@, title@)),
            final(self).node_pages() == old(self).node_pages(),
            final(self).edge_pages() == old(self).edge_pages(),
            final(self).struct_pages() == old(self).struct_pages(),
            final(self).import_pages() == old(self).import_pages(),
            final(self).schema_path_text() == old(self).schema_path_text(),
            final(self).title_text() == old(self).title_text(),
            final(self).path_text() == old(self).path_text(),
    {
        SchemaDocContext::add_section(title, self.schema_path.as_str(), "types", &mut self.types)
    }
}

/// The book being built: its folders and its sections.
pub struct DocBookContext {
    pub book_root_path: String,
    pub book_src_path: String,
    pub book_res_path: String,
    main_sections: Vec<SchemaDocContext>,
    other_sections: Vec<SchemaDocContext>,
}

/// The page that opens a section: its title as a heading, then its content.
pub open spec fn section_page(title: Seq<char>, content: Seq<char>) -> Seq<char> {
    "# "@ + title + "\n"@ + content
}

impl DocBookContext {
    pub closed spec fn root_text(self) -> Seq<char> {
        self.book_root_path@
    }

    pub closed spec fn src_text(self) -> Seq<char> {
        self.book_src_path@
    }

    pub closed spec fn res_text(self) -> Seq<char> {
        self.book_res_path@
    }

    pub closed spec fn main_titles(self) -> Seq<Seq<char>> {
        self.main_sections@.map_values(|s: SchemaDocContext| s.title@)
    }

    pub closed spec fn other_titles(self) -> Seq<Seq<char>> {
        self.other_sections@.map_values(|s: SchemaDocContext| s.title@)
    }

    /// A book kept in `book_root_path`: its sources are in `src`, its resources in `src/resources`.
    pub fn new(book_root_path: &str) -> (r: Self)
        ensures
            r.root_text() == book_root_path@,
            r.src_text() == spec_join_path(book_root_path@, "src"@),
            r.res_text() == spec_join_path(r.src_text(), "resources"@),
            r.main_titles().len() == 0,
            r.other_titles().len() == 0,
    {
        let src = join_path(book_root_path, "src");
        let res = join_path(src.as_str(), "resources");
        DocBookContext {
            book_root_path: String::from_str(book_root_path),
            book_src_path: src,
            book_res_path: res,
            main_sections: Vec::new(),
            other_sections: Vec::new(),
        }
    }

    /// Open a main section: gives the file of its page and the page's text.
    pub fn create_main_section(&mut self, title: String, content: &str) -> (r: (String, String))
        ensures
            final(self).main_titles() == old(self).main_titles().push(title@),
            final(self).other_titles() == old(self).other_titles(),
            final(self).src_text() == old(self).src_text(),
            r.0@ == spec_join_path(old(self).src_text(), title@ + ".md"@),
            r.1@ == section_page(title@, content@),
    {
        let (file, text) = section_files(self.book_src_path.as_str(), &title, content);
        let section = SchemaDocContext::new(title, self.book_src_path.as_str());
        let ghost before = self.main_sections@;
        self.main_sections.push(section);
        assert(self.main_titles() =~= before.map_values(|s: SchemaDocContext| s.title@).push(title@));
        (file, text)
    }

    /// Open another section: gives the file of its page and the page's text.
    pub fn create_other_section(&mut self, title: String, content: &str) -> (r: (String, String))
        ensures
            final(self).other_titles() == old(self).other_titles().push(title@),
            final(self).main_titles() == old(self).main_titles(),
            final(self).src_text() == old(self).src_text(),
            r.0@ == spec_join_path(old(self).src_text(), title@ + ".md"@),
            r.1@ == section_page(title@, content@),
    {
        let (file, text) = section_files(self.book_src_path.as_str(), &title, content);
        let section = SchemaDocContext::new(title, self.book_src_path.as_str());
        let ghost before = self.other_sections@;
        self.other_sections.push(section);
        assert(self.other_titles() =~= before.map_values(|s: SchemaDocContext| s.title@).push(title@));
        (file, text)
    }
}

fn section_files(src: &str, title: &String, content: &str) -> (r: (String, String))
    ensures
        r.0@ == spec_join_path(src@, title@ + ".md"@),
        r.1@ == section_page(title@, content@),
{
    let mut name = title.clone();
    name.append(".md");
    let file = join_path(src, name.as_str());
    let mut text = String::from_str("# ");
    text.append(title.as_str());
    text.append("\n");
    text.append(content);
    (file, text)
}

} // verus!
