use vstd::prelude::*;
use vstd::string::*;

verus! {

/// Content of a file to be written: `None` asks for the file to exist, `Some(text)` for its text.
pub open spec fn content_view(c: Option<String>) -> Option<Seq<char>> {
    match c {
        Some(s) => Some(s@),
        None => None,
    }
}

/// The files described by a list of (path, content) entries; later entries win.
pub open spec fn entries_map(s: Seq<(String, Option<String>)>) -> Map<Seq<char>, Option<Seq<char>>>
    decreases s.len(),
{
    if s.len() == 0 {
        Map::empty()
    } else {
        entries_map(s.drop_last()).insert(s.last().0@, content_view(s.last().1))
    }
}

/// No path occurs twice.
pub open spec fn unique_paths(s: Seq<(String, Option<String>)>) -> bool {
    forall|i: int, j: int| 0 <= i < j < s.len() ==> s[i].0@ != s[j].0@
}

/// What the file at a path holds after `content` was added to it.
pub open spec fn added(old: Option<Option<Seq<char>>>, content: Seq<char>) -> Option<Seq<char>> {
    match old {
        Some(Some(c)) => Some(c + content),
        _ => Some(content),
    }
}

/// The files after `content` was added to the file at `path`.
pub open spec fn spec_add_content(
    files: Map<Seq<char>, Option<Seq<char>>>,
    path: Seq<char>,
    content: Seq<char>,
) -> Map<Seq<char>, Option<Seq<char>>> {
    let old = if files.contains_key(path) {
        Some(files[path])
    } else {
        None
    };
    files.insert(path, added(old, content))
}

/// The files after the file at `path` was asked to exist.
pub open spec fn spec_create_file(files: Map<Seq<char>, Option<Seq<char>>>, path: Seq<char>) -> Map<
    Seq<char>,
    Option<Seq<char>>,
> {
    if files.contains_key(path) {
        files
    } else {
        files.insert(path, None)
    }
}

/// The files after an entry of another container was merged in.
pub open spec fn merge_entry(
    files: Map<Seq<char>, Option<Seq<char>>>,
    path: Seq<char>,
    content: Option<Seq<char>>,
) -> Map<Seq<char>, Option<Seq<char>>> {
    match content {
        Some(c) => spec_add_content(files, path, c),
        None => spec_create_file(files, path),
    }
}

/// The files after the entries of another container were merged in, in order.
pub open spec fn merge_entries(
    files: Map<Seq<char>, Option<Seq<char>>>,
    other: Seq<(String, Option<String>)>,
) -> Map<Seq<char>, Option<Seq<char>>>
    decreases other.len(),
{
    if other.len() == 0 {
        files
    } else {
        merge_entry(merge_entries(files, other.drop_last()), other.last().0@, content_view(other.last().1))
    }
}

/// The value the merge of two containers holds at a path.
pub open spec fn merged_value(
    mine: Map<Seq<char>, Option<Seq<char>>>,
    theirs: Map<Seq<char>, Option<Seq<char>>>,
    path: Seq<char>,
) -> Option<Seq<char>> {
    if !theirs.contains_key(path) {
        mine[path]
    } else {
        match theirs[path] {
            Some(c) => added(
                if mine.contains_key(path) {
                    Some(mine[path])
                } else {
                    None
                },
                c,
            ),
            None => if mine.contains_key(path) {
                mine[path]
            } else {
                None
            },
        }
    }
}

/// The merge of two containers: every file of either, with the text of `theirs`
/// added after the text of `mine`.
pub open spec fn spec_merge(
    mine: Map<Seq<char>, Option<Seq<char>>>,
    theirs: Map<Seq<char>, Option<Seq<char>>>,
) -> Map<Seq<char>, Option<Seq<char>>> {
    Map::new(
        |p: Seq<char>| mine.contains_key(p) || theirs.contains_key(p),
        |p: Seq<char>| merged_value(mine, theirs, p),
    )
}

/// What has to happen on disk for one generated file.
#[derive(Debug, Clone, Copy, PartialEq, Eq, Structural)]
pub enum WriteAction {
    /// Leave the file as it is.
    Keep,
    /// Create the file empty.
    CreateEmpty,
    /// Write the generated text into the file.
    Write,
}

/// The action for a file whose generated content is `content` and whose current
/// text is `current` (`None` when the file does not exist).
pub open spec fn spec_plan_write(content: Option<Seq<char>>, current: Option<Seq<char>>) -> WriteAction {
    match content {
        Some(c) => match current {
            Some(cur) => if c == cur {
                WriteAction::Keep
            } else {
                WriteAction::Write
            },
            None => WriteAction::Write,
        },
        None => match current {
            Some(_) => WriteAction::Keep,
            None => WriteAction::CreateEmpty,
        },
    }
}

/// Decide what writing one generated file does: files are created when missing,
/// and text is only written when it differs from what the file holds.
pub fn plan_write(content: &Option<String>, current: &Option<String>) -> (r: WriteAction)
    ensures
        r == spec_plan_write(content_view(*content), content_view(*current)),
{
    match content {
        Some(c) => match current {
            Some(cur) => if c.eq(cur) {
                WriteAction::Keep
            } else {
                WriteAction::Write
            },
            None => WriteAction::Write,
        },
        None => match current {
            Some(_) => WriteAction::Keep,
            None => WriteAction::CreateEmpty,
        },
    }
}

/// A flat container of all the content written to different files.
///
/// Files are only written once, from this container, which keeps writes from conflicting.
#[derive(Debug)]
pub struct GeneratedCode {
    new_files: Vec<(String, Option<String>)>,
}

impl View for GeneratedCode {
    type V = Map<Seq<char>, Option<Seq<char>>>;

    closed spec fn view(&self) -> Map<Seq<char>, Option<Seq<char>>> {
        entries_map(self.new_files@)
    }
}

proof fn lemma_entries_map_lookup(s: Seq<(String, Option<String>)>, i: int)
    requires
        unique_paths(s),
        0 <= i < s.len(),
    ensures
        entries_map(s).contains_key(s[i].0@),
        entries_map(s)[s[i].0@] == content_view(s[i].1),
    decreases s.len(),
{
    if i < s.len() - 1 {
        lemma_entries_map_lookup(s.drop_last(), i);
    }
}

proof fn lemma_entries_map_absent(s: Seq<(String, Option<String>)>, p: Seq<char>)
    requires
        forall|i: int| 0 <= i < s.len() ==> s[i].0@ != p,
    ensures
        !entries_map(s).contains_key(p),
    decreases s.len(),
{
    if s.len() > 0 {
        lemma_entries_map_absent(s.drop_last(), p);
    }
}

proof fn lemma_entries_map_update(s: Seq<(String, Option<String>)>, i: int, e: (String, Option<String>))
    requires
        unique_paths(s),
        0 <= i < s.len(),
        s[i].0@ == e.0@,
    ensures
        entries_map(s.update(i, e)) == entries_map(s).insert(e.0@, content_view(e.1)),
    decreases s.len(),
{
    let t = s.update(i, e);
    if i == s.len() - 1 {
        assert(t.drop_last() =~= s.drop_last());
        lemma_entries_map_absent(s.drop_last(), e.0@);
        assert(entries_map(t) =~= entries_map(s).insert(e.0@, content_view(e.1)));
    } else {
        assert(t.drop_last() =~= s.drop_last().update(i, e));
        lemma_entries_map_update(s.drop_last(), i, e);
        assert(entries_map(t) =~= entries_map(s).insert(e.0@, content_view(e.1)));
    }
}

impl GeneratedCode {
    #[verifier::type_invariant]
    closed spec fn well_formed(self) -> bool {
        unique_paths(self.new_files@)
    }

    pub fn new() -> (r: GeneratedCode)
        ensures
            r@ == Map::<Seq<char>, Option<Seq<char>>>::empty(),
    {
        GeneratedCode { new_files: Vec::new() }
    }

    /// Index of the entry for `path`, if there is one.
    fn find(&self, path: &String) -> (r: Option<usize>)
        ensures
            match r {
                Some(i) => i < self.new_files@.len() && self.new_files@[i as int].0@ == path@,
                None => forall|i: int|
                    0 <= i < self.new_files@.len() ==> self.new_files@[i].0@ != path@,
            },
    {
        let n = self.new_files.len();
        let mut i: usize = 0;
        while i < n
            invariant
                n == self.new_files@.len(),
                i <= n,
                forall|j: int| 0 <= j < i ==> self.new_files@[j].0@ != path@,
            decreases n - i,
        {
            if self.new_files[i].0.eq(path) {
                return Some(i);
            }
            i = i + 1;
        }
        None
    }

    /// Add `content` at the end of the file at `path`, creating the entry if needed.
    pub fn add_content(&mut self, path: String, content: String)
        ensures
            final(self)@ == spec_add_content(old(self)@, path@, content@),
    {
        proof {
            use_type_invariant(&*self);
        }
        let ghost old_files = self.new_files@;
        match self.find(&path) {
            Some(i) => {
                let current = match &self.new_files[i].1 {
                    Some(c) => {
                        let mut c2 = c.clone();
                        c2.append(content.as_str());
                        c2
                    },
                    None => content,
                };
                proof {
                    lemma_entries_map_lookup(old_files, i as int);
                }
                let entry = (path, Some(current));
                let mut files = Vec::new();
                std::mem::swap(&mut files, &mut self.new_files);
                files.set(i, entry);
                proof {
                    lemma_entries_map_update(old_files, i as int, entry);
                    assert forall|a: int, b: int| 0 <= a < b < files@.len() implies files@[a].0@
                        != files@[b].0@ by {
                        assert(old_files[a].0@ != old_files[b].0@);
                    }
                }
                self.new_files = files;
            },
            None => {
                proof {
                    lemma_entries_map_absent(old_files, path@);
                }
                let mut files = Vec::new();
                std::mem::swap(&mut files, &mut self.new_files);
                files.push((path, Some(content)));
                proof {
                    assert(files@.drop_last() =~= old_files);
                }
                self.new_files = files;
            },
        }
    }

    /// Make sure the file at `path` exists, leaving any content already added to it.
    pub fn create_file(&mut self, path: String)
        ensures
            final(self)@ == spec_create_file(old(self)@, path@),
    {
        proof {
            use_type_invariant(&*self);
        }
        let ghost old_files = self.new_files@;
        match self.find(&path) {
            Some(i) => {
                proof {
                    lemma_entries_map_lookup(old_files, i as int);
                }
            },
            None => {
                proof {
                    lemma_entries_map_absent(old_files, path@);
                }
                let mut files = Vec::new();
                std::mem::swap(&mut files, &mut self.new_files);
                files.push((path, None));
                proof {
                    assert(files@.drop_last() =~= old_files);
                }
                self.new_files = files;
            },
        }
    }

    /// Give the file at `path` a default content, unless the file already exists on disk.
    pub fn create_file_with_default(&mut self, path: String, content: String, path_exists: bool)
        ensures
            final(self)@ == if path_exists {
                old(self)@
            } else {
                spec_add_content(old(self)@, path@, content@)
            },
    {
        if !path_exists {
            self.add_content(path, content);
        }
    }

    /// Merge the files of `other` into `self`.
    pub fn append(&mut self, other: GeneratedCode)
        ensures
            final(self)@ == spec_merge(old(self)@, other@),
    {
        proof {
            use_type_invariant(&other);
        }
        let ghost start = self@;
        let entries = other.new_files;
        let ghost es = entries@;
        let n = entries.len();
        let mut i: usize = 0;
        while i < n
            invariant
                n == es.len(),
                es == entries@,
                i <= n,
                self@ == merge_entries(start, es.take(i as int)),
            decreases n - i,
        {
            let p = entries[i].0.clone();
            match &entries[i].1 {
                Some(content) => self.add_content(p, content.clone()),
                None => self.create_file(p),
            }
            i = i + 1;
            assert(es.take(i as int).drop_last() =~= es.take(i - 1));
        }
        assert(es.take(n as int) =~= es);
        proof {
            lemma_merge_entries(start, es);
        }
    }

    /// Number of files in the container.
    pub fn len(&self) -> (r: usize)
        ensures
            r == self@.len(),
    {
        proof {
            use_type_invariant(self);
            lemma_entries_map_len(self.new_files@);
        }
        self.new_files.len()
    }

    /// The content given to the file at `path`: `None` when the container does not
    /// know the path, `Some(None)` when the file is only to exist.
    pub fn get(&self, path: &String) -> (r: Option<Option<String>>)
        ensures
            match r {
                Some(c) => self@.contains_key(path@) && content_view(c) == self@[path@],
                None => !self@.contains_key(path@),
            },
    {
        proof {
            use_type_invariant(self);
        }
        match self.find(path) {
            Some(i) => {
                proof {
                    lemma_entries_map_lookup(self.new_files@, i as int);
                }
                let c = match &self.new_files[i].1 {
                    Some(s) => Some(s.clone()),
                    None => None,
                };
                Some(c)
            },
            None => {
                proof {
                    lemma_entries_map_absent(self.new_files@, path@);
                }
                None
            },
        }
    }

    /// The entries of the container, each path once.
    pub fn entries(&self) -> (r: &Vec<(String, Option<String>)>)
        ensures
            unique_paths(r@),
            entries_map(r@) == self@,
    {
        proof {
            use_type_invariant(self);
        }
        &self.new_files
    }
}

proof fn lemma_entries_map_len(s: Seq<(String, Option<String>)>)
    requires
        unique_paths(s),
    ensures
        entries_map(s).dom().finite(),
        entries_map(s).len() == s.len(),
    decreases s.len(),
{
    if s.len() > 0 {
        lemma_entries_map_len(s.drop_last());
        lemma_entries_map_absent(s.drop_last(), s.last().0@);
    }
}

/// Merging the entries of a container one after another gives the merge of the two containers.
proof fn lemma_merge_entries(mine: Map<Seq<char>, Option<Seq<char>>>, es: Seq<(String, Option<String>)>)
    requires
        unique_paths(es),
    ensures
        merge_entries(mine, es) == spec_merge(mine, entries_map(es)),
    decreases es.len(),
{
    if es.len() == 0 {
        assert(merge_entries(mine, es) =~= spec_merge(mine, entries_map(es)));
    } else {
        let init = es.drop_last();
        lemma_merge_entries(mine, init);
        lemma_entries_map_absent(init, es.last().0@);
        assert(merge_entries(mine, es) =~= spec_merge(mine, entries_map(es)));
    }
}

/// What a file holds once `action` was carried out on it (`None`: it does not exist).
pub open spec fn after_write(action: WriteAction, content: Option<Seq<char>>, current: Option<Seq<char>>) -> Option<
    Seq<char>,
> {
    match action {
        WriteAction::Keep => current,
        WriteAction::CreateEmpty => Some(Seq::empty()),
        WriteAction::Write => content,
    }
}

/// Writing only ever creates files: whatever was planned, the file exists afterwards,
/// and a file that exists and only has to exist is never touched.
pub proof fn law_write_never_deletes(content: Option<Seq<char>>, current: Option<Seq<char>>)
    ensures
        after_write(spec_plan_write(content, current), content, current) is Some,
        content is None && current is Some ==> spec_plan_write(content, current) == WriteAction::Keep,
{
}

/// Generating a second time writes nothing: once the planned action was carried out,
/// the plan for the same content is to keep the file.
pub proof fn law_plan_write_settles(content: Option<Seq<char>>, current: Option<Seq<char>>)
    ensures
        spec_plan_write(content, after_write(spec_plan_write(content, current), content, current))
            == WriteAction::Keep,
{
}

/// Asking twice for a file to exist is the same as asking once.
pub proof fn law_create_file_idempotent(files: Map<Seq<char>, Option<Seq<char>>>, path: Seq<char>)
    ensures
        spec_create_file(spec_create_file(files, path), path) == spec_create_file(files, path),
{
}

/// Asking for a file to exist never takes away text already given to it.
pub proof fn law_create_file_keeps_content(files: Map<Seq<char>, Option<Seq<char>>>, path: Seq<char>, content: Seq<char>)
    ensures
        spec_create_file(spec_add_content(files, path, content), path) == spec_add_content(files, path, content),
{
}

/// Adding two pieces of text to a file one after the other adds their concatenation.
pub proof fn law_add_content_accumulates(
    files: Map<Seq<char>, Option<Seq<char>>>,
    path: Seq<char>,
    a: Seq<char>,
    b: Seq<char>,
)
    ensures
        spec_add_content(spec_add_content(files, path, a), path, b) == spec_add_content(files, path, a + b),
{
    if files.contains_key(path) {
        match files[path] {
            Some(c) => {
                assert(c + a + b =~= c + (a + b));
            },
            None => {},
        }
    }
    assert(spec_add_content(spec_add_content(files, path, a), path, b) =~= spec_add_content(
        files,
        path,
        a + b,
    ));
}

/// Merging an empty container changes nothing, and merging into an empty container
/// gives the other one.
pub proof fn law_merge_empty(files: Map<Seq<char>, Option<Seq<char>>>)
    ensures
        spec_merge(files, Map::empty()) == files,
        spec_merge(Map::empty(), files) == files,
{
    assert(spec_merge(files, Map::empty()) =~= files);
    assert(spec_merge(Map::empty(), files) =~= files);
}

} // verus!
