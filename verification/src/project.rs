use vstd::prelude::*;
use vstd::string::*;

use crate::assoc::{
    assoc_map, lemma_assoc_absent, lemma_assoc_dom, lemma_assoc_lookup, lemma_assoc_push,
    lemma_assoc_remove, lemma_assoc_update, unique_keys,
};
use crate::direction::Direction;
use crate::error::{GenError, GenResult};
use crate::hex::{hex_key, spec_hex_key};
use crate::paths::{join_path, spec_join_path};
use crate::naming::{bump_safe, increment_is_safe, increment_name, spec_increment_name, trailing_numeric_len};
use crate::rust_migrations::{entry_pairs, lemma_parents_in_members, parents_in, parents_of, steps_of};
use crate::schema::{ChangeSet, Schema};
use crate::text::texts;

verus! {

/// One entry of the version tree: the changeset `id` leads from `from` to `to`, in direction `dir`.
pub struct TreeEdge {
    pub from: String,
    pub to: String,
    pub id: u64,
    pub dir: Direction,
}

pub open spec fn schema_key() -> spec_fn(Schema) -> Seq<char> {
    |s: Schema| s.version@
}

pub open spec fn schema_val() -> spec_fn(Schema) -> Schema {
    |s: Schema| s
}

pub open spec fn changeset_key() -> spec_fn(ChangeSet) -> u64 {
    |c: ChangeSet| c.id
}

pub open spec fn changeset_val() -> spec_fn(ChangeSet) -> ChangeSet {
    |c: ChangeSet| c
}

pub open spec fn edge_key() -> spec_fn(TreeEdge) -> (Seq<char>, Seq<char>) {
    |e: TreeEdge| (e.from@, e.to@)
}

pub open spec fn edge_val() -> spec_fn(TreeEdge) -> (u64, Direction) {
    |e: TreeEdge| (e.id, e.dir)
}

/// Schemas by version name.
pub type SchemaMap = Map<Seq<char>, Schema>;

/// Changesets by id.
pub type ChangeSetMap = Map<u64, ChangeSet>;

/// The version tree: for each pair of versions, the changeset between them and its direction.
pub type VersionTree = Map<(Seq<char>, Seq<char>), (u64, Direction)>;

/// The version tree after the changeset `c` was registered: forward from its old
/// version to its new one, and backwards the other way.
pub open spec fn tree_with(t: VersionTree, c: ChangeSet) -> VersionTree {
    t.insert((c.old_version@, c.new_version@), (c.id, Direction::Forward)).insert(
        (c.new_version@, c.old_version@),
        (c.id, Direction::Backwards),
    )
}

/// The version tree after the changeset `c` was taken out.
pub open spec fn tree_without(t: VersionTree, c: ChangeSet) -> VersionTree {
    t.remove((c.old_version@, c.new_version@)).remove((c.new_version@, c.old_version@))
}

/// `e` reports that a key of kind `kind` was already taken.
pub open spec fn is_duplicate(
    e: GenError,
    kind: Seq<char>,
    old: Seq<char>,
    new: Seq<char>,
    old_hash: u64,
    new_hash: u64,
) -> bool {
    match e {
        GenError::DuplicateKeys { kind: k, old: o, new: n, old_hash: oh, new_hash: nh } => k@
            == kind && o@ == old && n@ == new && oh == old_hash && nh == new_hash,
        _ => false,
    }
}

/// `e` reports that no schema has the name `name`.
pub open spec fn is_unknown_schema(e: GenError, name: Seq<char>) -> bool {
    match e {
        GenError::UnknownSchema { name: n } => n@ == name,
        _ => false,
    }
}

/// A schema is a head when no changeset leads forward from it.
pub open spec fn is_head(schemas: SchemaMap, tree: VersionTree, name: Seq<char>) -> bool {
    &&& schemas.contains_key(name)
    &&& forall|to: Seq<char>|
        tree.contains_key((name, to)) ==> tree[(name, to)].1 != Direction::Forward
}

/// No changeset leads from `name` in direction `dir`.
pub open spec fn leads_nowhere(tree: VersionTree, name: Seq<char>, dir: Direction) -> bool {
    forall|to: Seq<char>| tree.contains_key((name, to)) ==> tree[(name, to)].1 != dir
}

/// A schema is a root when no changeset leads backwards from it.
pub open spec fn is_root(schemas: SchemaMap, tree: VersionTree, name: Seq<char>) -> bool {
    &&& schemas.contains_key(name)
    &&& forall|to: Seq<char>|
        tree.contains_key((name, to)) ==> tree[(name, to)].1 != Direction::Backwards
}

/// Every entry of the version tree names a known changeset and two known schemas.
pub open spec fn tree_consistent(schemas: SchemaMap, changesets: ChangeSetMap, tree: VersionTree) -> bool {
    forall|k: (Seq<char>, Seq<char>)|
        tree.contains_key(k) ==> changesets.contains_key(#[trigger] tree[k].0)
            && schemas.contains_key(k.1) && schemas.contains_key(k.0)
}

/// The hashes recorded in a changeset match the schemas it links.
pub open spec fn changeset_matches(schemas: SchemaMap, c: ChangeSet) -> bool {
    &&& schemas.contains_key(c.old_version@)
    &&& schemas.contains_key(c.new_version@)
    &&& schemas[c.old_version@].hash == c.old_hash
    &&& schemas[c.new_version@].hash == c.new_hash
}

/// `e` reports that the version tree entry `k` (holding `v`) points at something missing:
/// first its changeset, then its new schema, then its old schema are looked up.
pub open spec fn is_tree_entry_error(
    schemas: SchemaMap,
    changesets: ChangeSetMap,
    k: (Seq<char>, Seq<char>),
    v: (u64, Direction),
    e: GenError,
) -> bool {
    match e {
        GenError::MalformedVersionTree { kind, missing_key } => if !changesets.contains_key(v.0) {
            kind@ == "changset"@ && missing_key@ == spec_hex_key(v.0 as nat)
        } else if !schemas.contains_key(k.1) {
            kind@ == "new schema"@ && missing_key@ == k.1
        } else if !schemas.contains_key(k.0) {
            kind@ == "old schema"@ && missing_key@ == k.0
        } else {
            false
        },
        _ => false,
    }
}

/// `e` reports that the hash a changeset recorded for `schema` is not the schema's hash.
pub open spec fn is_divergent(e: GenError, c: ChangeSet, schema: Seq<char>, expected: u64, recieved: u64) -> bool {
    match e {
        GenError::DivergentChangeset { old_version, new_version, schema: s, expected: x, recieved: y } =>
            old_version@ == c.old_version@ && new_version@ == c.new_version@ && s@ == schema && x
            == expected && y == recieved,
        _ => false,
    }
}

/// `e` is the error checking the changeset `c` against the schemas gives: its schemas
/// are looked up, old then new, then their hashes are compared, old then new.
pub open spec fn is_changeset_error(schemas: SchemaMap, c: ChangeSet, e: GenError) -> bool {
    if !schemas.contains_key(c.old_version@) {
        is_unknown_schema(e, c.old_version@)
    } else if !schemas.contains_key(c.new_version@) {
        is_unknown_schema(e, c.new_version@)
    } else if schemas[c.old_version@].hash != c.old_hash {
        is_divergent(e, c, c.old_version@, c.old_hash, schemas[c.old_version@].hash)
    } else if schemas[c.new_version@].hash != c.new_hash {
        is_divergent(e, c, c.new_version@, c.new_hash, schemas[c.new_version@].hash)
    } else {
        false
    }
}

/// Every changeset of the project matches the schemas it links.
pub open spec fn changesets_match(schemas: SchemaMap, changesets: ChangeSetMap) -> bool {
    forall|id: u64| changesets.contains_key(id) ==> changeset_matches(schemas, #[trigger] changesets[id])
}

/// The triples of a list, read as plain values.
pub open spec fn triples_view(r: Seq<(String, String, u64)>) -> Seq<(Seq<char>, Seq<char>, u64)> {
    r.map_values(|t: (String, String, u64)| (t.0@, t.1@, t.2))
}

/// An entry in direction `e` is listed for the choice `d`: every entry when no direction
/// is chosen, else those in the chosen direction.
pub open spec fn included(e: Direction, d: Option<Direction>) -> bool {
    d is None || d == Some(e)
}

/// The entries of a version tree list that `d` selects, as (from, to, id), in list order.
pub open spec fn dir_entries(s: Seq<TreeEdge>, d: Option<Direction>) -> Seq<(Seq<char>, Seq<char>, u64)>
    decreases s.len(),
{
    if s.len() == 0 {
        Seq::empty()
    } else {
        let rest = dir_entries(s.drop_last(), d);
        if included(s.last().dir, d) {
            rest.push((s.last().from@, s.last().to@, s.last().id))
        } else {
            rest
        }
    }
}

/// A version tree entry, read as plain values.
pub open spec fn entry_of(e: TreeEdge) -> (Seq<char>, Seq<char>, u64) {
    (e.from@, e.to@, e.id)
}

/// The position in `s` of the `a`-th entry that `d` selects.
spec fn source_index(s: Seq<TreeEdge>, d: Option<Direction>, a: int) -> int
    decreases s.len(),
{
    if s.len() == 0 {
        0
    } else if a < dir_entries(s.drop_last(), d).len() {
        source_index(s.drop_last(), d, a)
    } else {
        s.len() - 1
    }
}

proof fn lemma_dir_entries_sources(s: Seq<TreeEdge>, d: Option<Direction>)
    ensures
        forall|a: int|
            0 <= a < dir_entries(s, d).len() ==> {
                let j = #[trigger] source_index(s, d, a);
                &&& 0 <= j < s.len()
                &&& included(s[j].dir, d)
                &&& entry_of(s[j]) == dir_entries(s, d)[a]
            },
    decreases s.len(),
{
    if s.len() > 0 {
        let t = s.drop_last();
        lemma_dir_entries_sources(t, d);
        let rest = dir_entries(t, d);
        let e = dir_entries(s, d);
        assert forall|a: int| 0 <= a < e.len() implies {
            let j = #[trigger] source_index(s, d, a);
            &&& 0 <= j < s.len()
            &&& included(s[j].dir, d)
            &&& entry_of(s[j]) == e[a]
        } by {
            if a < rest.len() {
                assert(e[a] == rest[a]);
                let j = source_index(t, d, a);
                assert(source_index(s, d, a) == j);
                assert(s[j] == t[j]);
            } else {
                let j = s.len() - 1;
                assert(source_index(s, d, a) == j);
                assert(included(s[j].dir, d));
                assert(e[a] == entry_of(s[j]));
            }
        }
    }
}

proof fn lemma_dir_entries_listed(s: Seq<TreeEdge>, d: Option<Direction>)
    ensures
        forall|j: int|
            0 <= j < s.len() && #[trigger] included(s[j].dir, d) ==> exists|a: int|
                0 <= a < dir_entries(s, d).len() && dir_entries(s, d)[a] == (s[j].from@, s[j].to@, s[j].id),
    decreases s.len(),
{
    if s.len() > 0 {
        let t = s.drop_last();
        lemma_dir_entries_listed(t, d);
        let rest = dir_entries(t, d);
        let e = dir_entries(s, d);
        assert forall|j: int|
            0 <= j < s.len() && #[trigger] included(s[j].dir, d) implies exists|a: int|
                0 <= a < e.len() && e[a] == (s[j].from@, s[j].to@, s[j].id) by {
            if j < t.len() {
                assert(t[j] == s[j]);
                assert(included(t[j].dir, d));
                let a = choose|a: int| 0 <= a < rest.len() && rest[a] == (t[j].from@, t[j].to@, t[j].id);
                assert(e[a] == rest[a]);
            } else {
                assert(e[rest.len() as int] == (s[j].from@, s[j].to@, s[j].id));
            }
        }
    }
}

proof fn lemma_dir_entries_distinct(s: Seq<TreeEdge>, d: Option<Direction>)
    requires
        unique_keys(s, edge_key()),
    ensures
        forall|a: int, b: int|
            0 <= a < b < dir_entries(s, d).len() ==> (dir_entries(s, d)[a].0, dir_entries(s, d)[a].1) != (
                dir_entries(s, d)[b].0,
                dir_entries(s, d)[b].1,
            ),
    decreases s.len(),
{
    if s.len() > 0 {
        let t = s.drop_last();
        assert(unique_keys(t, edge_key())) by {
            assert forall|a: int, b: int| 0 <= a < t.len() && 0 <= b < t.len() && a != b implies edge_key()(t[a]) != edge_key()(t[b]) by {
                assert(edge_key()(s[a]) != edge_key()(s[b]));
            }
        }
        lemma_dir_entries_distinct(t, d);
        lemma_dir_entries_sources(t, d);
        let rest = dir_entries(t, d);
        let e = dir_entries(s, d);
        if included(s.last().dir, d) {
            assert forall|a: int, b: int| 0 <= a < b < e.len() implies (e[a].0, e[a].1) != (e[b].0, e[b].1) by {
                if b == rest.len() {
                    assert(e[a] == rest[a]);
                    let j = source_index(t, d, a);
                    assert(s[j] == t[j]);
                    assert(edge_key()(s[j]) != edge_key()(s[s.len() - 1]));
                } else {
                    assert(e[a] == rest[a] && e[b] == rest[b]);
                }
            }
        }
    }
}

/// A project: the schemas, the changesets between them and the version tree the
/// changesets make up.
pub struct Project {
    schemas: Vec<Schema>,
    changesets: Vec<ChangeSet>,
    version_tree: Vec<TreeEdge>,
    schema_folder: String,
    changeset_folder: String,
}

impl Project {
    #[verifier::type_invariant]
    closed spec fn well_formed(self) -> bool {
        &&& unique_keys(self.schemas@, schema_key())
        &&& unique_keys(self.changesets@, changeset_key())
        &&& unique_keys(self.version_tree@, edge_key())
    }

    /// The schemas of the project, by version name.
    pub closed spec fn schema_map(self) -> SchemaMap {
        assoc_map(self.schemas@, schema_key(), schema_val())
    }

    /// The changesets of the project, by id.
    pub closed spec fn changeset_map(self) -> ChangeSetMap {
        assoc_map(self.changesets@, changeset_key(), changeset_val())
    }

    /// The version tree of the project.
    pub closed spec fn tree(self) -> VersionTree {
        assoc_map(self.version_tree@, edge_key(), edge_val())
    }

    /// The entries of the version tree that lead in direction `d`, as (from, to, changeset
    /// id), in the order they were added.
    pub closed spec fn version_entries(self, d: Direction) -> Seq<(Seq<char>, Seq<char>, u64)> {
        dir_entries(self.version_tree@, Some(d))
    }

    /// Every entry of the version tree, in both directions, as (from, to, changeset id), in
    /// the order they were added.
    pub closed spec fn all_entries(self) -> Seq<(Seq<char>, Seq<char>, u64)> {
        dir_entries(self.version_tree@, None)
    }

    /// The names of the schemas, in the order they were added.
    pub closed spec fn schema_order(self) -> Seq<Seq<char>> {
        self.schemas@.map_values(|s: Schema| s.version@)
    }

    pub closed spec fn spec_schema_folder(self) -> Seq<char> {
        self.schema_folder@
    }

    pub closed spec fn spec_changeset_folder(self) -> Seq<char> {
        self.changeset_folder@
    }

    /// An empty project kept in the two given folders.
    pub fn new(schema_folder: String, changeset_folder: String) -> (r: Project)
        ensures
            r.schema_map() == SchemaMap::empty(),
            r.changeset_map() == ChangeSetMap::empty(),
            r.tree() == VersionTree::empty(),
            r.spec_schema_folder() == schema_folder@,
            r.spec_changeset_folder() == changeset_folder@,
    {
        Project {
            schemas: Vec::new(),
            changesets: Vec::new(),
            version_tree: Vec::new(),
            schema_folder,
            changeset_folder,
        }
    }

    pub fn get_schema_folder(&self) -> (r: &str)
        ensures
            r@ == self.spec_schema_folder(),
    {
        self.schema_folder.as_str()
    }

    pub fn get_changeset_folder(&self) -> (r: &str)
        ensures
            r@ == self.spec_changeset_folder(),
    {
        self.changeset_folder.as_str()
    }

    fn find_schema(&self, id: &str) -> (r: Option<usize>)
        ensures
            match r {
                Some(i) => i < self.schemas@.len() && self.schemas@[i as int].version@ == id@,
                None => forall|i: int|
                    0 <= i < self.schemas@.len() ==> self.schemas@[i].version@ != id@,
            },
    {
        let n = self.schemas.len();
        let mut i: usize = 0;
        while i < n
            invariant
                n == self.schemas@.len(),
                i <= n,
                forall|j: int| 0 <= j < i ==> self.schemas@[j].version@ != id@,
            decreases n - i,
        {
            if str_equal(self.schemas[i].version.as_str(), id) {
                return Some(i);
            }
            i = i + 1;
        }
        None
    }

    fn find_changeset(&self, id: u64) -> (r: Option<usize>)
        ensures
            match r {
                Some(i) => i < self.changesets@.len() && self.changesets@[i as int].id == id,
                None => forall|i: int|
                    0 <= i < self.changesets@.len() ==> self.changesets@[i].id != id,
            },
    {
        let n = self.changesets.len();
        let mut i: usize = 0;
        while i < n
            invariant
                n == self.changesets@.len(),
                i <= n,
                forall|j: int| 0 <= j < i ==> self.changesets@[j].id != id,
            decreases n - i,
        {
            if self.changesets[i].id == id {
                return Some(i);
            }
            i = i + 1;
        }
        None
    }

    fn find_edge(&self, from: &str, to: &str) -> (r: Option<usize>)
        ensures
            match r {
                Some(i) => i < self.version_tree@.len() && self.version_tree@[i as int].from@
                    == from@ && self.version_tree@[i as int].to@ == to@,
                None => forall|i: int|
                    0 <= i < self.version_tree@.len() ==> (self.version_tree@[i].from@,
                    self.version_tree@[i].to@) != (from@, to@),
            },
    {
        let n = self.version_tree.len();
        let mut i: usize = 0;
        while i < n
            invariant
                n == self.version_tree@.len(),
                i <= n,
                forall|j: int|
                    0 <= j < i ==> (self.version_tree@[j].from@, self.version_tree@[j].to@) != (
                    from@,
                    to@,
                ),
            decreases n - i,
        {
            let e = &self.version_tree[i];
            if str_equal(e.from.as_str(), from) && str_equal(e.to.as_str(), to) {
                return Some(i);
            }
            i = i + 1;
        }
        None
    }

    pub fn has_schema(&self, id: &str) -> (r: bool)
        ensures
            r == self.schema_map().contains_key(id@),
    {
        proof {
            use_type_invariant(self);
        }
        match self.find_schema(id) {
            Some(i) => {
                proof {
                    lemma_assoc_lookup(self.schemas@, schema_key(), schema_val(), i as int);
                }
                true
            },
            None => {
                proof {
                    lemma_assoc_absent(self.schemas@, schema_key(), schema_val(), id@);
                }
                false
            },
        }
    }

    pub fn get_schema_safe(&self, id: &String) -> (r: Option<&Schema>)
        ensures
            match r {
                Some(s) => self.schema_map().contains_key(id@) && *s == self.schema_map()[id@],
                None => !self.schema_map().contains_key(id@),
            },
    {
        proof {
            use_type_invariant(self);
        }
        match self.find_schema(id.as_str()) {
            Some(i) => {
                proof {
                    lemma_assoc_lookup(self.schemas@, schema_key(), schema_val(), i as int);
                }
                Some(&self.schemas[i])
            },
            None => {
                proof {
                    lemma_assoc_absent(self.schemas@, schema_key(), schema_val(), id@);
                }
                None
            },
        }
    }

    pub fn get_schema(&self, id: &String) -> (r: GenResult<&Schema>)
        ensures
            match r {
                Ok(s) => self.schema_map().contains_key(id@) && *s == self.schema_map()[id@],
                Err(e) => !self.schema_map().contains_key(id@) && is_unknown_schema(e, id@),
            },
    {
        match self.get_schema_safe(id) {
            Some(s) => Ok(s),
            None => Err(GenError::UnknownSchema { name: id.clone() }),
        }
    }

    pub fn get_changeset_safe(&self, id: &u64) -> (r: Option<&ChangeSet>)
        ensures
            match r {
                Some(c) => self.changeset_map().contains_key(*id) && *c == self.changeset_map()[*id],
                None => !self.changeset_map().contains_key(*id),
            },
    {
        proof {
            use_type_invariant(self);
        }
        match self.find_changeset(*id) {
            Some(i) => {
                proof {
                    lemma_assoc_lookup(self.changesets@, changeset_key(), changeset_val(), i as int);
                }
                Some(&self.changesets[i])
            },
            None => {
                proof {
                    lemma_assoc_absent(self.changesets@, changeset_key(), changeset_val(), *id);
                }
                None
            },
        }
    }

    pub fn get_changeset(&self, id: &u64) -> (r: GenResult<&ChangeSet>)
        ensures
            match r {
                Ok(c) => self.changeset_map().contains_key(*id) && *c == self.changeset_map()[*id],
                Err(e) => !self.changeset_map().contains_key(*id) && e
                    == GenError::UnknownChangeset { name: *id },
            },
    {
        match self.get_changeset_safe(id) {
            Some(c) => Ok(c),
            None => Err(GenError::UnknownChangeset { name: *id }),
        }
    }

    /// Record `value` for the pair (`from`, `to`) in the version tree.
    fn tree_insert(&mut self, from: String, to: String, id: u64, dir: Direction)
        ensures
            final(self).tree() == old(self).tree().insert((from@, to@), (id, dir)),
            final(self).schema_map() == old(self).schema_map(),
            final(self).changeset_map() == old(self).changeset_map(),
            final(self).spec_schema_folder() == old(self).spec_schema_folder(),
            final(self).spec_changeset_folder() == old(self).spec_changeset_folder(),
    {
        proof {
            use_type_invariant(&*self);
        }
        let ghost old_tree = self.version_tree@;
        let found = self.find_edge(from.as_str(), to.as_str());
        let e = TreeEdge { from, to, id, dir };
        let mut tree = Vec::new();
        std::mem::swap(&mut tree, &mut self.version_tree);
        match found {
            Some(i) => {
                proof {
                    lemma_assoc_update(old_tree, edge_key(), edge_val(), i as int, e);
                }
                tree.set(i, e);
            },
            None => {
                proof {
                    lemma_assoc_absent(old_tree, edge_key(), edge_val(), (e.from@, e.to@));
                    lemma_assoc_push(old_tree, edge_key(), edge_val(), e);
                }
                tree.push(e);
            },
        }
        self.version_tree = tree;
    }

    /// Forget the pair (`from`, `to`) in the version tree.
    fn tree_remove(&mut self, from: &str, to: &str)
        ensures
            final(self).tree() == old(self).tree().remove((from@, to@)),
            final(self).schema_map() == old(self).schema_map(),
            final(self).changeset_map() == old(self).changeset_map(),
            final(self).spec_schema_folder() == old(self).spec_schema_folder(),
            final(self).spec_changeset_folder() == old(self).spec_changeset_folder(),
    {
        proof {
            use_type_invariant(&*self);
        }
        let ghost old_tree = self.version_tree@;
        match self.find_edge(from, to) {
            Some(i) => {
                let mut tree = Vec::new();
                std::mem::swap(&mut tree, &mut self.version_tree);
                proof {
                    lemma_assoc_remove(old_tree, edge_key(), edge_val(), i as int);
                }
                tree.remove(i);
                self.version_tree = tree;
            },
            None => {
                proof {
                    lemma_assoc_absent(old_tree, edge_key(), edge_val(), (from@, to@));
                    assert(self.tree() =~= self.tree().remove((from@, to@)));
                }
            },
        }
    }

    /// Add a new schema to the project, under its version name. A schema that
    /// had the same name is replaced, and reported as an error.
    pub fn add_schema(&mut self, schema: Schema) -> (r: GenResult<String>)
        ensures
            final(self).schema_map() == old(self).schema_map().insert(schema.version@, schema),
            final(self).changeset_map() == old(self).changeset_map(),
            final(self).tree() == old(self).tree(),
            final(self).spec_schema_folder() == old(self).spec_schema_folder(),
            final(self).spec_changeset_folder() == old(self).spec_changeset_folder(),
            match r {
                Ok(name) => name@ == schema.version@ && !old(self).schema_map().contains_key(
                    schema.version@,
                ),
                Err(e) => old(self).schema_map().contains_key(schema.version@) && is_duplicate(
                    e,
                    "schema"@,
                    old(self).schema_map()[schema.version@].version@,
                    schema.version@,
                    old(self).schema_map()[schema.version@].hash,
                    schema.hash,
                ),
            },
    {
        proof {
            use_type_invariant(&*self);
        }
        let ghost old_schemas = self.schemas@;
        let new_version = schema.version.clone();
        let new_hash = schema.hash;
        let found = self.find_schema(new_version.as_str());
        let mut schemas = Vec::new();
        std::mem::swap(&mut schemas, &mut self.schemas);
        match found {
            Some(i) => {
                proof {
                    lemma_assoc_lookup(old_schemas, schema_key(), schema_val(), i as int);
                    lemma_assoc_update(old_schemas, schema_key(), schema_val(), i as int, schema);
                }
                let old_version = schemas[i].version.clone();
                let old_hash = schemas[i].hash;
                schemas.set(i, schema);
                self.schemas = schemas;
                Err(
                    GenError::DuplicateKeys {
                        kind: String::from_str("schema"),
                        old: old_version,
                        new: new_version,
                        old_hash,
                        new_hash,
                    },
                )
            },
            None => {
                proof {
                    lemma_assoc_absent(old_schemas, schema_key(), schema_val(), schema.version@);
                    lemma_assoc_push(old_schemas, schema_key(), schema_val(), schema);
                }
                schemas.push(schema);
                self.schemas = schemas;
                Ok(new_version)
            },
        }
    }

    /// Register a changeset: it is entered in the version tree in both directions
    /// and stored under its id. A changeset that had the same id is replaced, and
    /// reported as an error.
    pub fn add_changeset(&mut self, changeset: ChangeSet) -> (r: GenResult<u64>)
        ensures
            final(self).changeset_map() == old(self).changeset_map().insert(changeset.id, changeset),
            final(self).tree() == tree_with(old(self).tree(), changeset),
            final(self).schema_map() == old(self).schema_map(),
            final(self).spec_schema_folder() == old(self).spec_schema_folder(),
            final(self).spec_changeset_folder() == old(self).spec_changeset_folder(),
            match r {
                Ok(id) => id == changeset.id && !old(self).changeset_map().contains_key(
                    changeset.id,
                ),
                Err(e) => old(self).changeset_map().contains_key(changeset.id) && is_duplicate(
                    e,
                    "changset"@,
                    old(self).changeset_map()[changeset.id].old_version@,
                    old(self).changeset_map()[changeset.id].new_version@,
                    old(self).changeset_map()[changeset.id].old_hash,
                    old(self).changeset_map()[changeset.id].new_hash,
                ),
            },
    {
        let id = changeset.id;
        self.tree_insert(
            changeset.old_version.clone(),
            changeset.new_version.clone(),
            id,
            Direction::Forward,
        );
        self.tree_insert(
            changeset.new_version.clone(),
            changeset.old_version.clone(),
            id,
            Direction::Backwards,
        );
        proof {
            use_type_invariant(&*self);
        }
        let ghost old_sets = self.changesets@;
        let found = self.find_changeset(id);
        let mut sets = Vec::new();
        std::mem::swap(&mut sets, &mut self.changesets);
        match found {
            Some(i) => {
                proof {
                    lemma_assoc_lookup(old_sets, changeset_key(), changeset_val(), i as int);
                    lemma_assoc_update(old_sets, changeset_key(), changeset_val(), i as int, changeset);
                }
                let old_version = sets[i].old_version.clone();
                let new_version = sets[i].new_version.clone();
                let old_hash = sets[i].old_hash;
                let new_hash = sets[i].new_hash;
                sets.set(i, changeset);
                self.changesets = sets;
                Err(
                    GenError::DuplicateKeys {
                        kind: String::from_str("changset"),
                        old: old_version,
                        new: new_version,
                        old_hash,
                        new_hash,
                    },
                )
            },
            None => {
                proof {
                    lemma_assoc_absent(old_sets, changeset_key(), changeset_val(), id);
                    lemma_assoc_push(old_sets, changeset_key(), changeset_val(), changeset);
                }
                sets.push(changeset);
                self.changesets = sets;
                Ok(id)
            },
        }
    }

    /// Take a changeset out of the project and out of the version tree.
    pub fn remove_changeset(&mut self, changeset_id: u64) -> (r: GenResult<ChangeSet>)
        ensures
            match r {
                Ok(c) => {
                    &&& old(self).changeset_map().contains_key(changeset_id)
                    &&& c == old(self).changeset_map()[changeset_id]
                    &&& final(self).changeset_map() == old(self).changeset_map().remove(changeset_id)
                    &&& final(self).tree() == tree_without(old(self).tree(), c)
                },
                Err(e) => {
                    &&& !old(self).changeset_map().contains_key(changeset_id)
                    &&& e == GenError::UnknownChangeset { name: changeset_id }
                    &&& final(self).changeset_map() == old(self).changeset_map()
                    &&& final(self).tree() == old(self).tree()
                },
            },
            final(self).schema_map() == old(self).schema_map(),
            final(self).spec_schema_folder() == old(self).spec_schema_folder(),
            final(self).spec_changeset_folder() == old(self).spec_changeset_folder(),
    {
        proof {
            use_type_invariant(&*self);
        }
        let ghost old_sets = self.changesets@;
        match self.find_changeset(changeset_id) {
            None => {
                proof {
                    lemma_assoc_absent(old_sets, changeset_key(), changeset_val(), changeset_id);
                }
                Err(GenError::UnknownChangeset { name: changeset_id })
            },
            Some(i) => {
                proof {
                    lemma_assoc_lookup(old_sets, changeset_key(), changeset_val(), i as int);
                    lemma_assoc_remove(old_sets, changeset_key(), changeset_val(), i as int);
                }
                let mut sets = Vec::new();
                std::mem::swap(&mut sets, &mut self.changesets);
                let changeset = sets.remove(i);
                self.changesets = sets;
                self.tree_remove(changeset.old_version.as_str(), changeset.new_version.as_str());
                self.tree_remove(changeset.new_version.as_str(), changeset.old_version.as_str());
                Ok(changeset)
            },
        }
    }
}

impl Project {
    /// The names of all schemas, each once.
    pub fn iter_schema(&self) -> (r: Vec<String>)
        ensures
            r@.len() == self.schema_map().len(),
            forall|i: int| 0 <= i < r@.len() ==> self.schema_map().contains_key(#[trigger] r@[i]@),
            forall|k: Seq<char>|
                self.schema_map().contains_key(k) ==> exists|i: int| 0 <= i < r@.len() && r@[i]@ == k,
            forall|i: int, j: int| 0 <= i < j < r@.len() ==> r@[i]@ != r@[j]@,
            r@.map_values(|s: String| s@) == self.schema_order(),
    {
        proof {
            use_type_invariant(self);
            lemma_map_len(self.schemas@, schema_key(), schema_val());
        }
        let n = self.schemas.len();
        let mut r: Vec<String> = Vec::new();
        let mut i: usize = 0;
        while i < n
            invariant
                n == self.schemas@.len(),
                i <= n,
                unique_keys(self.schemas@, schema_key()),
                r@.len() == i,
                forall|j: int| 0 <= j < i ==> r@[j]@ == self.schemas@[j].version@,
            decreases n - i,
        {
            r.push(self.schemas[i].version.clone());
            i = i + 1;
        }
        proof {
            assert forall|i: int| 0 <= i < r@.len() implies self.schema_map().contains_key(
                #[trigger] r@[i]@,
            ) by {
                lemma_assoc_lookup(self.schemas@, schema_key(), schema_val(), i);
            }
            assert forall|k: Seq<char>| self.schema_map().contains_key(k) implies exists|i: int|
                0 <= i < r@.len() && r@[i]@ == k by {
                lemma_assoc_dom(self.schemas@, schema_key(), schema_val(), k);
                let i = choose|i: int| 0 <= i < self.schemas@.len() && schema_key()(self.schemas@[i]) == k;
                assert(r@[i]@ == k);
            }
            assert forall|i: int, j: int| 0 <= i < j < r@.len() implies r@[i]@ != r@[j]@ by {
                assert(schema_key()(self.schemas@[i]) != schema_key()(self.schemas@[j]));
            }
            assert(r@.map_values(|s: String| s@) =~= self.schema_order());
        }
        r
    }

    /// The ids of all changesets, each once.
    pub fn iter_changesets(&self) -> (r: Vec<u64>)
        ensures
            r@.len() == self.changeset_map().len(),
            forall|i: int| 0 <= i < r@.len() ==> self.changeset_map().contains_key(#[trigger] r@[i]),
            forall|k: u64| self.changeset_map().contains_key(k) ==> r@.contains(k),
            r@.no_duplicates(),
    {
        proof {
            use_type_invariant(self);
            lemma_map_len(self.changesets@, changeset_key(), changeset_val());
        }
        let n = self.changesets.len();
        let mut r: Vec<u64> = Vec::new();
        let mut i: usize = 0;
        while i < n
            invariant
                n == self.changesets@.len(),
                i <= n,
                r@.len() == i,
                forall|j: int| 0 <= j < i ==> r@[j] == self.changesets@[j].id,
            decreases n - i,
        {
            r.push(self.changesets[i].id);
            i = i + 1;
        }
        proof {
            assert forall|i: int| 0 <= i < r@.len() implies self.changeset_map().contains_key(
                #[trigger] r@[i],
            ) by {
                lemma_assoc_lookup(self.changesets@, changeset_key(), changeset_val(), i);
            }
            assert forall|k: u64| self.changeset_map().contains_key(k) implies r@.contains(k) by {
                lemma_assoc_dom(self.changesets@, changeset_key(), changeset_val(), k);
                let i = choose|i: int| 0 <= i < self.changesets@.len() && changeset_key()(self.changesets@[i]) == k;
                assert(r@[i] == k);
            }
            assert forall|i: int, j: int| 0 <= i < r@.len() && 0 <= j < r@.len() && i != j implies r@[i] != r@[j] by {
                assert(changeset_key()(self.changesets@[i]) != changeset_key()(self.changesets@[j]));
            }
        }
        r
    }

    /// The entries of the version tree, as (from, to, changeset id): those in direction
    /// `dir`, or, with no direction given, all of them, in both directions.
    pub fn iter_version(&self, dir: Option<Direction>) -> (r: Vec<(String, String, u64)>)
        ensures
            forall|i: int|
                0 <= i < r@.len() ==> {
                    &&& self.tree().contains_key((#[trigger] r@[i].0@, r@[i].1@))
                    &&& included(self.tree()[(r@[i].0@, r@[i].1@)].1, dir)
                    &&& self.tree()[(r@[i].0@, r@[i].1@)].0 == r@[i].2
                },
            forall|k: (Seq<char>, Seq<char>)|
                self.tree().contains_key(k) && included(self.tree()[k].1, dir) ==> exists|i: int|
                    0 <= i < r@.len() && (r@[i].0@, r@[i].1@) == k,
            forall|i: int, j: int|
                0 <= i < j < r@.len() ==> (r@[i].0@, r@[i].1@) != (r@[j].0@, r@[j].1@),
            dir matches Some(d) ==> triples_view(r@) == self.version_entries(d),
            dir is None ==> triples_view(r@) == self.all_entries(),
    {
        proof {
            use_type_invariant(self);
        }
        let mut r: Vec<(String, String, u64)> = Vec::new();
        let n = self.version_tree.len();
        let mut i: usize = 0;
        while i < n
            invariant
                n == self.version_tree@.len(),
                i <= n,
                triples_view(r@) == dir_entries(self.version_tree@.take(i as int), dir),
            decreases n - i,
        {
            let e = &self.version_tree[i];
            let ghost before = r@;
            let wanted = match dir {
                None => true,
                Some(d) => e.dir == d,
            };
            if wanted {
                r.push((e.from.clone(), e.to.clone(), e.id));
            }
            proof {
                assert(self.version_tree@.take(i + 1).drop_last() =~= self.version_tree@.take(i as int));
                assert(triples_view(r@) =~= dir_entries(self.version_tree@.take(i + 1), dir));
            }
            i = i + 1;
        }
        proof {
            let t = self.version_tree@;
            assert(t.take(n as int) =~= t);
            lemma_dir_entries_sources(t, dir);
            lemma_dir_entries_listed(t, dir);
            lemma_dir_entries_distinct(t, dir);
            assert forall|a: int|
                0 <= a < r@.len() implies {
                    &&& self.tree().contains_key((#[trigger] r@[a].0@, r@[a].1@))
                    &&& included(self.tree()[(r@[a].0@, r@[a].1@)].1, dir)
                    &&& self.tree()[(r@[a].0@, r@[a].1@)].0 == r@[a].2
                } by {
                assert(triples_view(r@)[a] == (r@[a].0@, r@[a].1@, r@[a].2));
                let j = source_index(t, dir, a);
                lemma_assoc_lookup(t, edge_key(), edge_val(), j);
            }
            assert forall|k: (Seq<char>, Seq<char>)|
                self.tree().contains_key(k) && included(self.tree()[k].1, dir) implies exists|i: int|
                    0 <= i < r@.len() && (r@[i].0@, r@[i].1@) == k by {
                lemma_assoc_dom(t, edge_key(), edge_val(), k);
                let j = choose|j: int| 0 <= j < t.len() && edge_key()(t[j]) == k;
                lemma_assoc_lookup(t, edge_key(), edge_val(), j);
                assert(included(t[j].dir, dir));
                let a = choose|a: int| 0 <= a < r@.len() && triples_view(r@)[a] == (t[j].from@, t[j].to@, t[j].id);
                assert(triples_view(r@)[a] == (r@[a].0@, r@[a].1@, r@[a].2));
            }
            assert forall|a: int, b: int|
                0 <= a < b < r@.len() implies (r@[a].0@, r@[a].1@) != (r@[b].0@, r@[b].1@) by {
                assert(triples_view(r@)[a] == (r@[a].0@, r@[a].1@, r@[a].2));
                assert(triples_view(r@)[b] == (r@[b].0@, r@[b].1@, r@[b].2));
            }
        }
        r
    }

    /// Whether some changeset leads from `name` in direction `dir`.
    fn has_edge_from(&self, name: &str, dir: Direction) -> (r: bool)
        ensures
            r == exists|to: Seq<char>|
                self.tree().contains_key((name@, to)) && #[trigger] self.tree()[(name@, to)].1 == dir,
    {
        proof {
            use_type_invariant(self);
        }
        let n = self.version_tree.len();
        let mut i: usize = 0;
        while i < n
            invariant
                n == self.version_tree@.len(),
                i <= n,
                unique_keys(self.version_tree@, edge_key()),
                forall|j: int|
                    0 <= j < i ==> !(#[trigger] self.version_tree@[j].from@ == name@
                        && self.version_tree@[j].dir == dir),
            decreases n - i,
        {
            let e = &self.version_tree[i];
            if e.dir == dir && str_equal(e.from.as_str(), name) {
                proof {
                    lemma_assoc_lookup(self.version_tree@, edge_key(), edge_val(), i as int);
                    assert(self.tree()[(name@, e.to@)].1 == dir);
                }
                return true;
            }
            i = i + 1;
        }
        proof {
            assert forall|to: Seq<char>| self.tree().contains_key((name@, to)) implies #[trigger] self.tree()[(
                name@,
                to,
            )].1 != dir by {
                lemma_assoc_dom(self.version_tree@, edge_key(), edge_val(), (name@, to));
                let j = choose|j: int| 0 <= j < n && edge_key()(self.version_tree@[j]) == (name@, to);
                lemma_assoc_lookup(self.version_tree@, edge_key(), edge_val(), j);
                assert(self.version_tree@[j].from@ == name@);
            }
        }
        false
    }

    /// The schemas from which no changeset leads in direction `dir`, each once.
    fn schemas_without_edge(&self, dir: Direction) -> (r: Vec<String>)
        ensures
            forall|i: int|
                0 <= i < r@.len() ==> self.schema_map().contains_key(#[trigger] r@[i]@)
                    && forall|to: Seq<char>|
                    self.tree().contains_key((r@[i]@, to)) ==> self.tree()[(r@[i]@, to)].1 != dir,
            forall|k: Seq<char>|
                self.schema_map().contains_key(k) && (forall|to: Seq<char>|
                    self.tree().contains_key((k, to)) ==> self.tree()[(k, to)].1 != dir) ==> exists|i: int|
                    0 <= i < r@.len() && r@[i]@ == k,
            forall|i: int, j: int| 0 <= i < j < r@.len() ==> r@[i]@ != r@[j]@,
            texts(r@) == self.schema_order().filter(|k: Seq<char>| leads_nowhere(self.tree(), k, dir)),
    {
        proof {
            use_type_invariant(self);
        }
        let n = self.schemas.len();
        let mut r: Vec<String> = Vec::new();
        let mut i: usize = 0;
        let ghost pred = |k: Seq<char>| leads_nowhere(self.tree(), k, dir);
        while i < n
            invariant
                n == self.schemas@.len(),
                i <= n,
                pred == (|k: Seq<char>| leads_nowhere(self.tree(), k, dir)),
                texts(r@) == self.schema_order().take(i as int).filter(pred),
                unique_keys(self.schemas@, schema_key()),
                forall|a: int|
                    #![trigger r@[a]]
                    0 <= a < r@.len() ==> exists|j: int| 0 <= j < i && #[trigger] self.schemas@[j].version@ == r@[a]@,
                forall|a: int|
                    0 <= a < r@.len() ==> forall|to: Seq<char>|
                        self.tree().contains_key((#[trigger] r@[a]@, to)) ==> self.tree()[(r@[a]@, to)].1 != dir,
                forall|j: int|
                    0 <= j < i && (forall|to: Seq<char>|
                        self.tree().contains_key((self.schemas@[j].version@, to)) ==> self.tree()[(
                            self.schemas@[j].version@,
                            to,
                        )].1 != dir) ==> exists|a: int| 0 <= a < r@.len() && r@[a]@ == #[trigger] self.schemas@[j].version@,
                forall|a: int, b: int| 0 <= a < b < r@.len() ==> r@[a]@ != r@[b]@,
            decreases n - i,
        {
            let name = &self.schemas[i].version;
            proof {
                assert(self.schema_order().take(i + 1) =~= self.schema_order().take(i as int).push(name@));
                self.schema_order().take(i as int).lemma_filter_push(name@, pred);
            }
            let ghost texts_before = texts(r@);
            if !self.has_edge_from(name.as_str(), dir) {
                let ghost old_r = r@;
                proof {
                    assert forall|a: int| 0 <= a < old_r.len() implies old_r[a]@ != name@ by {
                        let j = choose|j: int| 0 <= j < i && #[trigger] self.schemas@[j].version@ == old_r[a]@;
                        assert(schema_key()(self.schemas@[j]) != schema_key()(self.schemas@[i as int]));
                    }
                }
                r.push(name.clone());
                proof {
                    assert(texts(r@) =~= texts_before.push(name@));
                    assert forall|a: int|
                        #![trigger r@[a]]
                        0 <= a < r@.len() implies exists|j: int|
                        0 <= j < i + 1 && #[trigger] self.schemas@[j].version@ == r@[a]@ by {
                        if a < old_r.len() {
                            assert(r@[a] == old_r[a]);
                        } else {
                            assert(self.schemas@[i as int].version@ == r@[a]@);
                        }
                    }
                    assert forall|j: int|
                        0 <= j < i + 1 && (forall|to: Seq<char>|
                            self.tree().contains_key((self.schemas@[j].version@, to)) ==> self.tree()[(
                                self.schemas@[j].version@,
                                to,
                            )].1 != dir) implies exists|a: int| 0 <= a < r@.len() && r@[a]@ == #[trigger] self.schemas@[j].version@ by {
                        if j < i {
                            let a = choose|a: int| 0 <= a < old_r.len() && old_r[a]@ == #[trigger] self.schemas@[j].version@;
                            assert(r@[a] == old_r[a]);
                        } else {
                            assert(r@[old_r.len() as int]@ == self.schemas@[j].version@);
                        }
                    }
                    assert(pred(name@));
                }
            } else {
                proof {
                    assert(!pred(name@));
                }
            }
            i = i + 1;
        }
        proof {
            assert(self.schema_order().take(n as int) =~= self.schema_order());
            assert forall|a: int| 0 <= a < r@.len() implies self.schema_map().contains_key(#[trigger] r@[a]@) by {
                let j = choose|j: int| 0 <= j < n && #[trigger] self.schemas@[j].version@ == r@[a]@;
                lemma_assoc_lookup(self.schemas@, schema_key(), schema_val(), j);
            }
            assert forall|k: Seq<char>|
                self.schema_map().contains_key(k) && (forall|to: Seq<char>|
                    self.tree().contains_key((k, to)) ==> self.tree()[(k, to)].1 != dir) implies exists|i: int|
                    0 <= i < r@.len() && r@[i]@ == k by {
                lemma_assoc_dom(self.schemas@, schema_key(), schema_val(), k);
                let j = choose|j: int| 0 <= j < n && schema_key()(self.schemas@[j]) == k;
                assert(self.schemas@[j].version@ == k);
            }
        }
        r
    }

    /// The heads of the version tree: the schemas from which no changeset leads forward.
    pub fn find_heads(&self) -> (r: Vec<String>)
        ensures
            forall|i: int| 0 <= i < r@.len() ==> is_head(self.schema_map(), self.tree(), #[trigger] r@[i]@),
            forall|k: Seq<char>|
                is_head(self.schema_map(), self.tree(), k) ==> exists|i: int| 0 <= i < r@.len() && r@[i]@ == k,
            forall|i: int, j: int| 0 <= i < j < r@.len() ==> r@[i]@ != r@[j]@,
            texts(r@) == self.schema_order().filter(|k: Seq<char>| leads_nowhere(self.tree(), k, Direction::Forward)),
    {
        self.schemas_without_edge(Direction::Forward)
    }

    /// The roots of the version tree: the schemas from which no changeset leads backwards.
    pub fn find_roots(&self) -> (r: Vec<String>)
        ensures
            forall|i: int| 0 <= i < r@.len() ==> is_root(self.schema_map(), self.tree(), #[trigger] r@[i]@),
            forall|k: Seq<char>|
                is_root(self.schema_map(), self.tree(), k) ==> exists|i: int| 0 <= i < r@.len() && r@[i]@ == k,
            forall|i: int, j: int| 0 <= i < j < r@.len() ==> r@[i]@ != r@[j]@,
            texts(r@) == self.schema_order().filter(|k: Seq<char>| leads_nowhere(self.tree(), k, Direction::Backwards)),
    {
        self.schemas_without_edge(Direction::Backwards)
    }
}

impl Project {
    fn has_changeset(&self, id: u64) -> (r: bool)
        ensures
            r == self.changeset_map().contains_key(id),
    {
        proof {
            use_type_invariant(self);
        }
        match self.find_changeset(id) {
            Some(i) => {
                proof {
                    lemma_assoc_lookup(self.changesets@, changeset_key(), changeset_val(), i as int);
                }
                true
            },
            None => {
                proof {
                    lemma_assoc_absent(self.changesets@, changeset_key(), changeset_val(), id);
                }
                false
            },
        }
    }

    /// Check that the version tree only refers to existing changesets and schemas.
    #[verifier::spinoff_prover]
    pub fn check_version_tree(&self) -> (r: GenResult<()>)
        ensures
            r is Ok <==> tree_consistent(self.schema_map(), self.changeset_map(), self.tree()),
            r matches Err(e) ==> exists|k: (Seq<char>, Seq<char>)|
                self.tree().contains_key(k) && is_tree_entry_error(
                    self.schema_map(),
                    self.changeset_map(),
                    k,
                    self.tree()[k],
                    e,
                ),
    {
        proof {
            use_type_invariant(self);
        }
        let n = self.version_tree.len();
        let mut i: usize = 0;
        while i < n
            invariant
                n == self.version_tree@.len(),
                i <= n,
                unique_keys(self.version_tree@, edge_key()),
                forall|j: int|
                    0 <= j < i ==> self.changeset_map().contains_key(#[trigger] self.version_tree@[j].id)
                        && self.schema_map().contains_key(self.version_tree@[j].to@)
                        && self.schema_map().contains_key(self.version_tree@[j].from@),
            decreases n - i,
        {
            let e = &self.version_tree[i];
            proof {
                lemma_assoc_lookup(self.version_tree@, edge_key(), edge_val(), i as int);
            }
            let ghost k = (e.from@, e.to@);
            assert(self.tree().contains_key(k) && self.tree()[k] == (e.id, e.dir));
            if !self.has_changeset(e.id) {
                let err = GenError::MalformedVersionTree {
                    kind: String::from_str("changset"),
                    missing_key: hex_key(e.id),
                };
                assert(is_tree_entry_error(self.schema_map(), self.changeset_map(), k, self.tree()[k], err));
                assert(!tree_consistent(self.schema_map(), self.changeset_map(), self.tree()));
                return Err(err);
            }
            if !self.has_schema(e.to.as_str()) {
                let err = GenError::MalformedVersionTree {
                    kind: String::from_str("new schema"),
                    missing_key: e.to.clone(),
                };
                assert(is_tree_entry_error(self.schema_map(), self.changeset_map(), k, self.tree()[k], err));
                assert(!tree_consistent(self.schema_map(), self.changeset_map(), self.tree()));
                return Err(err);
            }
            if !self.has_schema(e.from.as_str()) {
                let err = GenError::MalformedVersionTree {
                    kind: String::from_str("old schema"),
                    missing_key: e.from.clone(),
                };
                assert(is_tree_entry_error(self.schema_map(), self.changeset_map(), k, self.tree()[k], err));
                assert(!tree_consistent(self.schema_map(), self.changeset_map(), self.tree()));
                return Err(err);
            }
            assert(self.changeset_map().contains_key(self.version_tree@[i as int].id));
            assert(self.schema_map().contains_key(self.version_tree@[i as int].to@));
            assert(self.schema_map().contains_key(self.version_tree@[i as int].from@));
            assert forall|j: int|
                0 <= j < i + 1 implies self.changeset_map().contains_key(#[trigger] self.version_tree@[j].id)
                    && self.schema_map().contains_key(self.version_tree@[j].to@)
                    && self.schema_map().contains_key(self.version_tree@[j].from@) by {
                if j < i {
                    assert(self.changeset_map().contains_key(self.version_tree@[j].id));
                }
            }
            i = i + 1;
        }
        proof {
            assert forall|k: (Seq<char>, Seq<char>)|
                self.tree().contains_key(k) implies self.changeset_map().contains_key(#[trigger] self.tree()[k].0)
                    && self.schema_map().contains_key(k.1) && self.schema_map().contains_key(k.0) by {
                lemma_assoc_dom(self.version_tree@, edge_key(), edge_val(), k);
                let j = choose|j: int| 0 <= j < n && edge_key()(self.version_tree@[j]) == k;
                lemma_assoc_lookup(self.version_tree@, edge_key(), edge_val(), j);
                assert(self.changeset_map().contains_key(self.version_tree@[j].id));
            }
        }
        Ok(())
    }

    /// Check the hashes a changeset recorded against the schemas it links.
    pub fn test_changeset(&self, changeset: &ChangeSet) -> (r: GenResult<()>)
        ensures
            r is Ok <==> changeset_matches(self.schema_map(), *changeset),
            r matches Err(e) ==> is_changeset_error(self.schema_map(), *changeset, e),
    {
        let old = self.get_schema(&changeset.old_version)?;
        let new = self.get_schema(&changeset.new_version)?;
        if old.hash != changeset.old_hash {
            return Err(
                GenError::DivergentChangeset {
                    old_version: changeset.old_version.clone(),
                    new_version: changeset.new_version.clone(),
                    schema: changeset.old_version.clone(),
                    expected: changeset.old_hash,
                    recieved: old.hash,
                },
            );
        }
        if new.hash != changeset.new_hash {
            return Err(
                GenError::DivergentChangeset {
                    old_version: changeset.old_version.clone(),
                    new_version: changeset.new_version.clone(),
                    schema: changeset.new_version.clone(),
                    expected: changeset.new_hash,
                    recieved: new.hash,
                },
            );
        }
        Ok(())
    }

    /// Check every changeset against the schemas it links.
    pub fn check_changset_hashes(&self) -> (r: GenResult<()>)
        ensures
            r is Ok <==> changesets_match(self.schema_map(), self.changeset_map()),
            r matches Err(e) ==> exists|id: u64|
                self.changeset_map().contains_key(id) && is_changeset_error(
                    self.schema_map(),
                    self.changeset_map()[id],
                    e,
                ),
    {
        proof {
            use_type_invariant(self);
        }
        let n = self.changesets.len();
        let mut i: usize = 0;
        while i < n
            invariant
                n == self.changesets@.len(),
                i <= n,
                unique_keys(self.changesets@, changeset_key()),
                forall|j: int| 0 <= j < i ==> changeset_matches(self.schema_map(), #[trigger] self.changesets@[j]),
            decreases n - i,
        {
            proof {
                lemma_assoc_lookup(self.changesets@, changeset_key(), changeset_val(), i as int);
            }
            let r = self.test_changeset(&self.changesets[i]);
            if r.is_err() {
                let ghost id = self.changesets@[i as int].id;
                assert(self.changeset_map().contains_key(id));
                assert(self.changeset_map()[id] == self.changesets@[i as int]);
                return r;
            }
            i = i + 1;
        }
        proof {
            assert forall|id: u64| self.changeset_map().contains_key(id) implies changeset_matches(
                self.schema_map(),
                #[trigger] self.changeset_map()[id],
            ) by {
                lemma_assoc_dom(self.changesets@, changeset_key(), changeset_val(), id);
                let j = choose|j: int| 0 <= j < n && changeset_key()(self.changesets@[j]) == id;
                lemma_assoc_lookup(self.changesets@, changeset_key(), changeset_val(), j);
            }
        }
        Ok(())
    }

    /// Check that the loaded project makes sense: first the version tree, then the changesets.
    pub fn verify_integrity(&self) -> (r: GenResult<()>)
        ensures
            r is Ok <==> tree_consistent(self.schema_map(), self.changeset_map(), self.tree())
                && changesets_match(self.schema_map(), self.changeset_map()),
            r matches Err(e) ==> (exists|k: (Seq<char>, Seq<char>)|
                self.tree().contains_key(k) && is_tree_entry_error(
                    self.schema_map(),
                    self.changeset_map(),
                    k,
                    self.tree()[k],
                    e,
                )) || (tree_consistent(self.schema_map(), self.changeset_map(), self.tree())
                && exists|id: u64|
                self.changeset_map().contains_key(id) && is_changeset_error(
                    self.schema_map(),
                    self.changeset_map()[id],
                    e,
                )),
    {
        self.check_version_tree()?;
        self.check_changset_hashes()?;
        Ok(())
    }
}

impl Project {
    /// Build a project kept in the two folders from the schemas and changesets read there,
    /// in that order. A schema name or a changeset id that comes twice is an error; when
    /// `check_integrity` is set, so is a project that fails the integrity check.
    pub fn open(
        schema_folder: String,
        changeset_folder: String,
        schemas: Vec<Schema>,
        changesets: Vec<ChangeSet>,
        check_integrity: bool,
    ) -> (r: GenResult<Project>)
        ensures
            r is Ok <==> unique_keys(schemas@, schema_key()) && unique_keys(changesets@, changeset_key())
                && (check_integrity ==> tree_consistent(
                loaded_schemas(schemas@),
                loaded_changesets(changesets@),
                tree_of(changesets@),
            ) && changesets_match(loaded_schemas(schemas@), loaded_changesets(changesets@))),
            r matches Ok(p) ==> p.schema_map() == loaded_schemas(schemas@) && p.changeset_map()
                == loaded_changesets(changesets@) && p.tree() == tree_of(changesets@)
                && p.spec_schema_folder() == schema_folder@ && p.spec_changeset_folder()
                == changeset_folder@,
            r matches Err(e) ==> if !unique_keys(schemas@, schema_key()) {
                is_schema_repeat(schemas@, e)
            } else if !unique_keys(changesets@, changeset_key()) {
                is_changeset_repeat(changesets@, e)
            } else {
                is_integrity_error(
                    loaded_schemas(schemas@),
                    loaded_changesets(changesets@),
                    tree_of(changesets@),
                    e,
                )
            },
    {
        let ghost all_s = schemas@;
        let ghost all_c = changesets@;
        let mut project = Project::new(schema_folder, changeset_folder);
        let ns = schemas.len();
        let mut rest = schemas;
        let mut i: usize = 0;
        while i < ns
            invariant
                all_s == schemas@,
                all_c == changesets@,
                ns == all_s.len(),
                i <= ns,
                rest@ == all_s.subrange(i as int, ns as int),
                unique_keys(all_s.subrange(0, i as int), schema_key()),
                project.schema_map() == assoc_map(all_s.subrange(0, i as int), schema_key(), schema_val()),
                project.changeset_map() == ChangeSetMap::empty(),
                project.tree() == VersionTree::empty(),
                project.spec_schema_folder() == schema_folder@,
                project.spec_changeset_folder() == changeset_folder@,
            decreases ns - i,
        {
            let ghost pre = all_s.subrange(0, i as int);
            let ghost next = all_s.subrange(0, i + 1);
            proof {
                assert(next.drop_last() =~= pre);
                assert(next.last() == all_s[i as int]);
            }
            let schema = rest.remove(0);
            assert(schema == all_s[i as int]);
            match project.add_schema(schema) {
                Ok(_) => {
                    proof {
                        lemma_assoc_push(pre, schema_key(), schema_val(), all_s[i as int]);
                        assert(pre.push(all_s[i as int]) =~= next);
                    }
                },
                Err(e) => {
                    proof {
                        let k = all_s[i as int].version@;
                        lemma_assoc_dom(pre, schema_key(), schema_val(), k);
                        let a = choose|a: int| 0 <= a < pre.len() && schema_key()(pre[a]) == k;
                        lemma_assoc_lookup(pre, schema_key(), schema_val(), a);
                        assert(first_repeat(all_s, schema_key(), a, i as int));
                        assert(!unique_keys(all_s, schema_key())) by {
                            assert(schema_key()(all_s[a]) == schema_key()(all_s[i as int]));
                        }
                        assert(is_schema_repeat(all_s, e));
                    }
                    return Err(e);
                },
            }
            proof {
                assert(rest@ =~= all_s.subrange(i + 1, ns as int));
            }
            i = i + 1;
        }
        proof {
            assert(all_s.subrange(0, ns as int) =~= all_s);
        }
        let nc = changesets.len();
        let mut rest_c = changesets;
        let mut j: usize = 0;
        while j < nc
            invariant
                all_s == schemas@,
                all_c == changesets@,
                nc == all_c.len(),
                j <= nc,
                rest_c@ == all_c.subrange(j as int, nc as int),
                unique_keys(all_s, schema_key()),
                unique_keys(all_c.subrange(0, j as int), changeset_key()),
                project.schema_map() == assoc_map(all_s, schema_key(), schema_val()),
                project.changeset_map() == assoc_map(all_c.subrange(0, j as int), changeset_key(), changeset_val()),
                project.tree() == tree_of(all_c.subrange(0, j as int)),
                project.spec_schema_folder() == schema_folder@,
                project.spec_changeset_folder() == changeset_folder@,
            decreases nc - j,
        {
            let ghost pre = all_c.subrange(0, j as int);
            let ghost next = all_c.subrange(0, j + 1);
            proof {
                assert(next.drop_last() =~= pre);
                assert(next.last() == all_c[j as int]);
            }
            let changeset = rest_c.remove(0);
            assert(changeset == all_c[j as int]);
            match project.add_changeset(changeset) {
                Ok(_) => {
                    proof {
                        lemma_assoc_push(pre, changeset_key(), changeset_val(), all_c[j as int]);
                        assert(pre.push(all_c[j as int]) =~= next);
                    }
                },
                Err(e) => {
                    proof {
                        let k = all_c[j as int].id;
                        lemma_assoc_dom(pre, changeset_key(), changeset_val(), k);
                        let a = choose|a: int| 0 <= a < pre.len() && changeset_key()(pre[a]) == k;
                        lemma_assoc_lookup(pre, changeset_key(), changeset_val(), a);
                        assert(first_repeat(all_c, changeset_key(), a, j as int));
                        assert(!unique_keys(all_c, changeset_key())) by {
                            assert(changeset_key()(all_c[a]) == changeset_key()(all_c[j as int]));
                        }
                        assert(is_changeset_repeat(all_c, e));
                    }
                    return Err(e);
                },
            }
            proof {
                assert(rest_c@ =~= all_c.subrange(j + 1, nc as int));
            }
            j = j + 1;
        }
        proof {
            assert(all_c.subrange(0, nc as int) =~= all_c);
        }
        if check_integrity {
            match project.verify_integrity() {
                Ok(()) => {},
                Err(e) => {
                    return Err(e);
                },
            }
        }
        Ok(project)
    }
}

/// `base` followed by `k` times `_copy`.
pub open spec fn with_copies(base: Seq<char>, k: nat) -> Seq<char>
    decreases k,
{
    if k == 0 {
        base
    } else {
        with_copies(base, (k - 1) as nat) + "_copy"@
    }
}

/// The name a copy of the schema `name` starts from: the name with its number counted up
/// (or `_copy` appended when it ends in none), or the name itself.
pub open spec fn copy_base(name: Seq<char>, increment: bool) -> Seq<char> {
    if increment {
        spec_increment_name(name, "_copy"@)
    } else {
        name
    }
}

/// `k` is the least number of `_copy` suffixes that make `base` a name no schema has.
pub open spec fn copies_needed(schemas: SchemaMap, base: Seq<char>, k: nat) -> bool {
    &&& !schemas.contains_key(with_copies(base, k))
    &&& forall|j: nat| j < k ==> schemas.contains_key(#[trigger] with_copies(base, j))
}

proof fn lemma_with_copies_len(base: Seq<char>, k: nat)
    ensures
        with_copies(base, k).len() == base.len() + 5 * k,
    decreases k,
{
    reveal_strlit("_copy");
    if k > 0 {
        lemma_with_copies_len(base, (k - 1) as nat);
    }
}

/// Names taken by `k + 1` schemas: there are at least that many.
proof fn lemma_copies_taken(schemas: SchemaMap, base: Seq<char>, k: nat)
    requires
        schemas.dom().finite(),
        forall|j: nat| j <= k ==> schemas.contains_key(#[trigger] with_copies(base, j)),
    ensures
        k + 1 <= schemas.len(),
{
    let names = Seq::new(k + 1, |j: int| with_copies(base, j as nat));
    assert forall|a: int, b: int| 0 <= a < names.len() && 0 <= b < names.len() && a != b implies names[a]
        != names[b] by {
        lemma_with_copies_len(base, a as nat);
        lemma_with_copies_len(base, b as nat);
    }
    assert(names.no_duplicates());
    names.unique_seq_to_set();
    assert forall|x: Seq<char>| names.to_set().contains(x) implies schemas.dom().contains(x) by {
        let j = choose|j: int| 0 <= j < names.len() && names[j] == x;
        assert(schemas.contains_key(with_copies(base, j as nat)));
    }
    vstd::set_lib::lemma_len_subset(names.to_set(), schemas.dom());
}

/// The tree entries leading from `from`, as (to, id, direction): each of them once.
pub open spec fn enumerates_from(t: VersionTree, from: Seq<char>, es: Seq<(Seq<char>, u64, Direction)>) -> bool {
    &&& forall|i: int|
        0 <= i < es.len() ==> t.contains_key((from, #[trigger] es[i].0)) && t[(from, es[i].0)] == (
            es[i].1,
            es[i].2,
        )
    &&& forall|x: Seq<char>| t.contains_key((from, x)) ==> exists|i: int| 0 <= i < es.len() && es[i].0 == x
    &&& forall|i: int, j: int| 0 <= i < j < es.len() ==> es[i].0 != es[j].0
}

/// What a changeset records of the schemas it links, as plain values: the old and new
/// versions and their hashes.
pub type ChangeSetView = (Seq<char>, Seq<char>, u64, u64);

pub open spec fn cs_view(c: ChangeSet) -> ChangeSetView {
    (c.old_version@, c.new_version@, c.old_hash, c.new_hash)
}

pub open spec fn cs_views(cm: ChangeSetMap) -> Map<u64, ChangeSetView> {
    Map::new(|k: u64| cm.contains_key(k), |k: u64| cs_view(cm[k]))
}

/// The two changesets agree on what a rename leaves alone: the id, the handler and the changes.
pub open spec fn same_rest(a: ChangeSet, b: ChangeSet) -> bool {
    a.id == b.id && a.handler == b.handler && a.changes == b.changes
}

/// A changeset after the schema at one of its ends was renamed to `name` with hash `hash`:
/// the old end for a forward entry, the new end for a backward one.
pub open spec fn renamed_view(v: ChangeSetView, dir: Direction, name: Seq<char>, hash: u64) -> ChangeSetView {
    match dir {
        Direction::Forward => (name, v.1, hash, v.3),
        Direction::Backwards => (v.0, name, v.2, hash),
    }
}

/// The changesets and the version tree after the changesets of the entries `es` were
/// renamed one after another: each one's tree entries are taken out and entered again
/// under its new ends.
pub open spec fn rename_fold(
    vm: Map<u64, ChangeSetView>,
    t: VersionTree,
    es: Seq<(Seq<char>, u64, Direction)>,
    name: Seq<char>,
    hash: u64,
) -> (Map<u64, ChangeSetView>, VersionTree)
    decreases es.len(),
{
    if es.len() == 0 {
        (vm, t)
    } else {
        let prev = rename_fold(vm, t, es.drop_last(), name, hash);
        let id = es.last().1;
        let v = prev.0[id];
        let w = renamed_view(v, es.last().2, name, hash);
        let t1 = prev.1.remove((v.0, v.1)).remove((v.1, v.0));
        let t2 = t1.insert((w.0, w.1), (id, Direction::Forward)).insert((w.1, w.0), (id, Direction::Backwards));
        (prev.0.insert(id, w), t2)
    }
}

proof fn lemma_fold_untouched(
    vm: Map<u64, ChangeSetView>,
    t: VersionTree,
    es: Seq<(Seq<char>, u64, Direction)>,
    name: Seq<char>,
    hash: u64,
    id: u64,
)
    requires
        forall|i: int| 0 <= i < es.len() ==> es[i].1 != id,
    ensures
        rename_fold(vm, t, es, name, hash).0.contains_key(id) == vm.contains_key(id),
        rename_fold(vm, t, es, name, hash).0[id] == vm[id],
    decreases es.len(),
{
    if es.len() > 0 {
        lemma_fold_untouched(vm, t, es.drop_last(), name, hash, id);
    }
}

/// Renaming `from` can go through: the changeset of each entry leading from `from` is
/// known, and no two of these entries name the same changeset.
pub open spec fn rename_safe(cm: ChangeSetMap, t: VersionTree, from: Seq<char>) -> bool {
    &&& forall|x: Seq<char>| t.contains_key((from, x)) ==> cm.contains_key(#[trigger] t[(from, x)].0)
    &&& forall|x: Seq<char>, y: Seq<char>|
        t.contains_key((from, x)) && t.contains_key((from, y)) && x != y ==> #[trigger] t[(from, x)].0
            != #[trigger] t[(from, y)].0
}

/// The file a changeset is saved in, in the folder `folder`.
pub open spec fn changeset_file(folder: Seq<char>, v: ChangeSetView) -> Seq<char> {
    spec_join_path(folder, v.0 + " "@ + v.1 + ".bs.diff"@)
}

/// The file a schema is saved in, in the folder `folder`.
pub open spec fn schema_file(folder: Seq<char>, name: Seq<char>) -> Seq<char> {
    spec_join_path(folder, name + ".bs"@)
}

/// The files a rename leaves out of date: the changeset files and the schema file to
/// remove, then the changesets and the schema to save again.
pub struct RenameFiles {
    pub removed_changesets: Vec<String>,
    pub saved_changesets: Vec<u64>,
    pub removed_schema: String,
    pub saved_schema: String,
}

/// The schemas of a list, by name.
pub open spec fn loaded_schemas(s: Seq<Schema>) -> SchemaMap {
    assoc_map(s, schema_key(), schema_val())
}

/// The changesets of a list, by id.
pub open spec fn loaded_changesets(s: Seq<ChangeSet>) -> ChangeSetMap {
    assoc_map(s, changeset_key(), changeset_val())
}

impl Project {
    /// The name a copy of the schema `id` gets: the name (with its number counted up when
    /// `increment` is set), followed by as many `_copy` as it takes to find a name no
    /// schema has. Counting up must be safe for the name, as `increment_is_safe` tells.
    pub fn copy_name(&self, id: &String, increment: bool) -> (r: GenResult<String>)
        requires
            increment && self.schema_map().contains_key(id@) ==> bump_safe(
                id@.skip(id@.len() - trailing_numeric_len(id@)),
            ),
        ensures
            match r {
                Ok(name) => self.schema_map().contains_key(id@) && exists|k: nat|
                    copies_needed(self.schema_map(), copy_base(id@, increment), k) && name@
                        == with_copies(copy_base(id@, increment), k),
                Err(e) => !self.schema_map().contains_key(id@) && is_unknown_schema(e, id@),
            },
    {
        proof {
            use_type_invariant(self);
            lemma_map_len(self.schemas@, schema_key(), schema_val());
        }
        let old = self.get_schema(id);
        if old.is_err() {
            return Err(GenError::UnknownSchema { name: id.clone() });
        }
        let mut new_name = if increment {
            increment_name(id.as_str(), "_copy")
        } else {
            id.clone()
        };
        let ghost base = copy_base(id@, increment);
        let n = self.schemas.len();
        let ghost mut k: nat = 0;
        while self.has_schema(new_name.as_str())
            invariant
                n == self.schemas@.len(),
                self.schema_map().dom().finite(),
                self.schema_map().len() == n,
                new_name@ == with_copies(base, k),
                forall|j: nat| j < k ==> self.schema_map().contains_key(#[trigger] with_copies(base, j)),
                k <= n,
            decreases n - k,
        {
            proof {
                assert forall|j: nat| j <= k implies self.schema_map().contains_key(
                    #[trigger] with_copies(base, j),
                ) by {
                    if j < k {
                    }
                }
                lemma_copies_taken(self.schema_map(), base, k);
            }
            new_name.append("_copy");
            proof {
                k = k + 1;
            }
        }
        assert(copies_needed(self.schema_map(), base, k));
        Ok(new_name)
    }
}

impl Project {
    /// The name a copy of the schema `id` gets, as `copy_name` gives it, when counting up
    /// its number is safe; `None` when `increment` is set, the schema exists, and counting
    /// up its name would bump a character whose low byte is 255.
    pub fn try_copy_name(&self, id: &String, increment: bool) -> (r: Option<GenResult<String>>)
        ensures
            r is None <==> (increment && self.schema_map().contains_key(id@) && !bump_safe(
                id@.skip(id@.len() - trailing_numeric_len(id@)),
            )),
            match r {
                Some(Ok(name)) => self.schema_map().contains_key(id@) && exists|k: nat|
                    copies_needed(self.schema_map(), copy_base(id@, increment), k) && name@
                        == with_copies(copy_base(id@, increment), k),
                Some(Err(e)) => !self.schema_map().contains_key(id@) && is_unknown_schema(e, id@),
                None => true,
            },
    {
        if increment && self.has_schema(id.as_str()) && !increment_is_safe(id.as_str()) {
            return None;
        }
        Some(self.copy_name(id, increment))
    }
}

impl Project {
    /// The entries of the version tree leading from `from`, in the order they are kept.
    fn entries_from(&self, from: &str) -> (r: (Vec<(String, u64, Direction)>, Ghost<Seq<(Seq<char>, u64, Direction)>>))
        ensures
            enumerates_from(self.tree(), from@, r.1@),
            r.0@.len() == r.1@.len(),
            forall|i: int|
                0 <= i < r.0@.len() ==> (#[trigger] r.0@[i]).0@ == r.1@[i].0 && r.0@[i].1 == r.1@[i].1
                    && r.0@[i].2 == r.1@[i].2,
    {
        proof {
            use_type_invariant(self);
        }
        let t = &self.version_tree;
        let ghost tv = self.version_tree@;
        let n = t.len();
        let mut r: Vec<(String, u64, Direction)> = Vec::new();
        let ghost mut es: Seq<(Seq<char>, u64, Direction)> = Seq::empty();
        let ghost mut idx: Seq<int> = Seq::empty();
        let mut i: usize = 0;
        while i < n
            invariant
                tv == self.version_tree@,
                t@ == tv,
                n == tv.len(),
                i <= n,
                unique_keys(tv, edge_key()),
                r@.len() == es.len(),
                es.len() == idx.len(),
                forall|a: int|
                    0 <= a < r@.len() ==> (#[trigger] r@[a]).0@ == es[a].0 && r@[a].1 == es[a].1 && r@[a].2
                        == es[a].2,
                forall|a: int|
                    0 <= a < es.len() ==> 0 <= #[trigger] idx[a] < i && tv[idx[a]].from@ == from@
                        && tv[idx[a]].to@ == es[a].0 && tv[idx[a]].id == es[a].1 && tv[idx[a]].dir == es[a].2,
                forall|j: int|
                    0 <= j < i && tv[j].from@ == from@ ==> exists|a: int| 0 <= a < es.len() && #[trigger] idx[a] == j,
                forall|a: int, b: int| 0 <= a < b < es.len() ==> idx[a] < idx[b],
            decreases n - i,
        {
            let e = &t[i];
            let ghost old_idx = idx;
            let ghost old_es = es;
            if str_equal(e.from.as_str(), from) {
                r.push((e.to.clone(), e.id, e.dir));
                proof {
                    es = es.push((e.to@, e.id, e.dir));
                    idx = idx.push(i as int);
                    assert(idx[idx.len() - 1] == i);
                }
            }
            proof {
                assert forall|j: int|
                    0 <= j < i + 1 && tv[j].from@ == from@ implies exists|a: int|
                    0 <= a < es.len() && #[trigger] idx[a] == j by {
                    if j < i {
                        let a = choose|a: int| 0 <= a < old_es.len() && #[trigger] old_idx[a] == j;
                        assert(idx[a] == old_idx[a]);
                    } else {
                        assert(idx[idx.len() - 1] == j);
                    }
                }
            }
            i = i + 1;
        }
        proof {
            assert forall|a: int|
                0 <= a < es.len() implies self.tree().contains_key((from@, #[trigger] es[a].0))
                && self.tree()[(from@, es[a].0)] == (es[a].1, es[a].2) by {
                lemma_assoc_lookup(tv, edge_key(), edge_val(), idx[a]);
            }
            assert forall|x: Seq<char>| self.tree().contains_key((from@, x)) implies exists|a: int|
                0 <= a < es.len() && es[a].0 == x by {
                lemma_assoc_dom(tv, edge_key(), edge_val(), (from@, x));
                let j = choose|j: int| 0 <= j < tv.len() && edge_key()(tv[j]) == (from@, x);
                let a = choose|a: int| 0 <= a < es.len() && #[trigger] idx[a] == j;
            }
            assert forall|a: int, b: int| 0 <= a < b < es.len() implies es[a].0 != es[b].0 by {
                assert(edge_key()(tv[idx[a]]) != edge_key()(tv[idx[b]]));
            }
        }
        (r, Ghost(es))
    }

    /// Whether renaming the schema `from` can go through: each changeset the version tree
    /// names for it is known, and no changeset is named for two of its neighbours.
    pub fn rename_is_safe(&self, from: &str) -> (r: bool)
        ensures
            r == rename_safe(self.changeset_map(), self.tree(), from@),
    {
        let (es, Ghost(gs)) = self.entries_from(from);
        let n = es.len();
        let mut i: usize = 0;
        while i < n
            invariant
                n == es@.len(),
                enumerates_from(self.tree(), from@, gs),
                es@.len() == gs.len(),
                forall|a: int|
                    0 <= a < es@.len() ==> (#[trigger] es@[a]).0@ == gs[a].0 && es@[a].1 == gs[a].1 && es@[a].2
                        == gs[a].2,
                i <= n,
                forall|a: int| 0 <= a < i ==> self.changeset_map().contains_key(#[trigger] gs[a].1),
                forall|a: int, b: int| 0 <= a < b < i ==> #[trigger] gs[a].1 != #[trigger] gs[b].1,
            decreases n - i,
        {
            assert(es@[i as int].1 == gs[i as int].1);
            if !self.has_changeset(es[i].1) {
                proof {
                    assert(self.tree().contains_key((from@, gs[i as int].0)));
                    assert(self.tree()[(from@, gs[i as int].0)].0 == gs[i as int].1);
                }
                return false;
            }
            let mut j: usize = 0;
            while j < i
                invariant
                    i < n,
                    n == es@.len(),
                    es@.len() == gs.len(),
                    forall|a: int|
                        0 <= a < es@.len() ==> (#[trigger] es@[a]).0@ == gs[a].0 && es@[a].1 == gs[a].1
                            && es@[a].2 == gs[a].2,
                    enumerates_from(self.tree(), from@, gs),
                    j <= i,
                    forall|a: int| 0 <= a < j ==> #[trigger] gs[a].1 != gs[i as int].1,
                decreases i - j,
            {
                assert(es@[j as int].1 == gs[j as int].1);
                if es[j].1 == es[i].1 {
                    proof {
                        let x = gs[j as int].0;
                        let y = gs[i as int].0;
                        assert(self.tree().contains_key((from@, x)) && self.tree()[(from@, x)].0 == gs[j as int].1);
                        assert(self.tree().contains_key((from@, y)) && self.tree()[(from@, y)].0 == gs[i as int].1);
                        assert(x != y);
                    }
                    return false;
                }
                j = j + 1;
            }
            i = i + 1;
        }
        proof {
            assert forall|x: Seq<char>| self.tree().contains_key((from@, x)) implies self.changeset_map().contains_key(
                #[trigger] self.tree()[(from@, x)].0,
            ) by {
                let a = choose|a: int| 0 <= a < gs.len() && gs[a].0 == x;
                assert(self.tree()[(from@, gs[a].0)] == (gs[a].1, gs[a].2));
            }
            assert forall|x: Seq<char>, y: Seq<char>|
                self.tree().contains_key((from@, x)) && self.tree().contains_key((from@, y)) && x != y implies #[trigger] self.tree()[(from@, x)].0
                    != #[trigger] self.tree()[(from@, y)].0 by {
                let a = choose|a: int| 0 <= a < gs.len() && gs[a].0 == x;
                let b = choose|b: int| 0 <= b < gs.len() && gs[b].0 == y;
                assert(self.tree()[(from@, gs[a].0)] == (gs[a].1, gs[a].2));
                assert(self.tree()[(from@, gs[b].0)] == (gs[b].1, gs[b].2));
                if a < b {
                    assert(gs[a].1 != gs[b].1);
                } else if b < a {
                    assert(gs[b].1 != gs[a].1);
                }
            }
        }
        true
    }

    /// The schemas from which a changeset leads to `version`, each once.
    pub fn get_parents(&self, version: &str) -> (r: Vec<String>)
        ensures
            texts(r@) == parents_in(entry_pairs(self.version_entries(Direction::Backwards)), version@),
            forall|i: int|
                0 <= i < r@.len() ==> self.tree().contains_key((version@, #[trigger] r@[i]@))
                    && self.tree()[(version@, r@[i]@)].1 == Direction::Backwards,
            forall|x: Seq<char>|
                self.tree().contains_key((version@, x)) && self.tree()[(version@, x)].1
                    == Direction::Backwards ==> exists|i: int| 0 <= i < r@.len() && r@[i]@ == x,
            forall|i: int, j: int| 0 <= i < j < r@.len() ==> r@[i]@ != r@[j]@,
    {
        let es = self.iter_version(Some(Direction::Backwards));
        let r = parents_of(&es, version);
        proof {
            let st = steps_of(es@);
            assert(st =~= entry_pairs(triples_view(es@)));
            lemma_parents_in_members(st, version@);
            let p = parents_in(st, version@);
            assert(texts(r@) == p);
            assert forall|a: int, b: int| 0 <= a < b < st.len() implies st[a] != st[b] by {
                assert(st[a] == (es@[a].0@, es@[a].1@));
                assert(st[b] == (es@[b].0@, es@[b].1@));
            }
            assert forall|i: int|
                0 <= i < r@.len() implies self.tree().contains_key((version@, #[trigger] r@[i]@))
                && self.tree()[(version@, r@[i]@)].1 == Direction::Backwards by {
                assert(p[i] == r@[i]@);
                let j = choose|j: int| 0 <= j < st.len() && #[trigger] st[j] == (version@, #[trigger] p[i]);
                assert(st[j] == (es@[j].0@, es@[j].1@));
            }
            assert forall|x: Seq<char>|
                self.tree().contains_key((version@, x)) && self.tree()[(version@, x)].1
                    == Direction::Backwards implies exists|i: int| 0 <= i < r@.len() && r@[i]@ == x by {
                let j = choose|j: int| 0 <= j < es@.len() && (es@[j].0@, es@[j].1@) == (version@, x);
                assert(st[j] == (es@[j].0@, es@[j].1@));
                assert(st[j].0 == version@);
                let k = choose|k: int| 0 <= k < p.len() && p[k] == st[j].1;
                assert(r@[k]@ == p[k]);
            }
            assert forall|i: int, j: int| 0 <= i < j < r@.len() implies r@[i]@ != r@[j]@ by {
                assert(r@[i]@ == p[i] && r@[j]@ == p[j]);
            }
        }
        r
    }
}

impl Project {
    /// Rename the schema `old_schema` to `new_name`, under which its hash is `new_hash`,
    /// together with every changeset that leads from or to it: the changeset's end at the
    /// schema takes the new name and hash, and its version tree entries are moved along.
    /// Renaming a missing schema, or to a name a schema already has, is an error. The files
    /// left out of date are returned.
    pub fn rename_schema(&mut self, old_schema: &String, new_name: String, new_hash: u64) -> (r: GenResult<
        RenameFiles,
    >)
        requires
            old(self).schema_map().contains_key(old_schema@) && !old(self).schema_map().contains_key(
                new_name@,
            ) ==> rename_safe(old(self).changeset_map(), old(self).tree(), old_schema@),
        ensures
            final(self).spec_schema_folder() == old(self).spec_schema_folder(),
            final(self).spec_changeset_folder() == old(self).spec_changeset_folder(),
            r is Err ==> final(self).schema_map() == old(self).schema_map() && final(self).changeset_map()
                == old(self).changeset_map() && final(self).tree() == old(self).tree(),
            r matches Err(e) ==> if !old(self).schema_map().contains_key(old_schema@) {
                is_unknown_schema(e, old_schema@)
            } else {
                old(self).schema_map().contains_key(new_name@) && is_duplicate(
                    e,
                    "schema"@,
                    old(self).schema_map()[old_schema@].version@,
                    old(self).schema_map()[new_name@].version@,
                    old(self).schema_map()[old_schema@].hash,
                    old(self).schema_map()[new_name@].hash,
                )
            },
            r is Ok ==> old(self).schema_map().contains_key(old_schema@) && !old(self).schema_map().contains_key(new_name@),
            r is Ok ==> final(self).schema_map().contains_key(new_name@) && final(self).schema_map()[new_name@].version@
                == new_name@ && final(self).schema_map()[new_name@].hash == new_hash && final(self).schema_map()[new_name@].content == old(self).schema_map()[old_schema@].content && final(self).schema_map().remove(new_name@) == old(self).schema_map().remove(old_schema@),
            r is Ok ==> final(self).changeset_map().dom() == old(self).changeset_map().dom() && forall|
                id: u64,
            |
                old(self).changeset_map().contains_key(id) ==> same_rest(
                    old(self).changeset_map()[id],
                    #[trigger] final(self).changeset_map()[id],
                ),
            r matches Ok(files) ==> files.removed_schema@ == schema_file(
                old(self).spec_schema_folder(),
                old_schema@,
            ) && files.saved_schema@ == new_name@,
            r matches Ok(files) ==> exists|es: Seq<(Seq<char>, u64, Direction)>|
                {
                    &&& enumerates_from(old(self).tree(), old_schema@, es)
                    &&& rename_fold(cs_views(old(self).changeset_map()), old(self).tree(), es, new_name@, new_hash)
                        == (cs_views(final(self).changeset_map()), final(self).tree())
                    &&& files.saved_changesets@ == es.map_values(|e: (Seq<char>, u64, Direction)| e.1)
                    &&& files.removed_changesets@.len() == es.len()
                    &&& forall|i: int|
                        0 <= i < es.len() ==> #[trigger] files.removed_changesets@[i]@ == changeset_file(
                            old(self).spec_changeset_folder(),
                            cs_views(old(self).changeset_map())[es[i].1],
                        )
                },
    {
        proof {
            use_type_invariant(&*self);
        }
        let ghost sm0 = self.schema_map();
        let ghost cm0 = self.changeset_map();
        let ghost t0 = self.tree();
        let i = match self.find_schema(old_schema.as_str()) {
            None => {
                proof {
                    lemma_assoc_absent(self.schemas@, schema_key(), schema_val(), old_schema@);
                }
                return Err(GenError::UnknownSchema { name: old_schema.clone() });
            },
            Some(i) => i,
        };
        proof {
            lemma_assoc_lookup(self.schemas@, schema_key(), schema_val(), i as int);
        }
        match self.find_schema(new_name.as_str()) {
            Some(j) => {
                proof {
                    lemma_assoc_lookup(self.schemas@, schema_key(), schema_val(), j as int);
                }
                return Err(
                    GenError::DuplicateKeys {
                        kind: String::from_str("schema"),
                        old: self.schemas[i].version.clone(),
                        new: self.schemas[j].version.clone(),
                        old_hash: self.schemas[i].hash,
                        new_hash: self.schemas[j].hash,
                    },
                );
            },
            None => {
                proof {
                    lemma_assoc_absent(self.schemas@, schema_key(), schema_val(), new_name@);
                }
            },
        }
        let ghost old_schemas = self.schemas@;
        let mut schemas = Vec::new();
        std::mem::swap(&mut schemas, &mut self.schemas);
        let mut sch = schemas.remove(i);
        proof {
            lemma_assoc_remove(old_schemas, schema_key(), schema_val(), i as int);
        }
        sch.version = new_name.clone();
        sch.hash = new_hash;
        proof {
            lemma_assoc_push(old_schemas.remove(i as int), schema_key(), schema_val(), sch);
        }
        schemas.push(sch);
        self.schemas = schemas;
        proof {
            assert(self.schema_map() == sm0.remove(old_schema@).insert(new_name@, sch));
            assert(self.schema_map().remove(new_name@) =~= sm0.remove(old_schema@));
        }
        let ghost sm1 = self.schema_map();
        let (entries, Ghost(es)) = self.entries_from(old_schema.as_str());
        let n = entries.len();
        let mut removed: Vec<String> = Vec::new();
        let mut saved: Vec<u64> = Vec::new();
        let mut k: usize = 0;
        while k < n
            invariant
                n == entries@.len(),
                n == es.len(),
                k <= n,
                forall|a: int|
                    0 <= a < entries@.len() ==> (#[trigger] entries@[a]).0@ == es[a].0 && entries@[a].1
                        == es[a].1 && entries@[a].2 == es[a].2,
                enumerates_from(t0, old_schema@, es),
                rename_safe(cm0, t0, old_schema@),
                self.schema_map() == sm1,
                self.spec_schema_folder() == old(self).spec_schema_folder(),
                self.spec_changeset_folder() == old(self).spec_changeset_folder(),
                self.changeset_map().dom() == cm0.dom(),
                forall|id: u64| cm0.contains_key(id) ==> same_rest(cm0[id], #[trigger] self.changeset_map()[id]),
                rename_fold(cs_views(cm0), t0, es.take(k as int), new_name@, new_hash) == (
                    cs_views(self.changeset_map()),
                    self.tree(),
                ),
                saved@ == es.take(k as int).map_values(|e: (Seq<char>, u64, Direction)| e.1),
                removed@.len() == k,
                forall|a: int|
                    0 <= a < k ==> #[trigger] removed@[a]@ == changeset_file(
                        old(self).spec_changeset_folder(),
                        cs_views(cm0)[es[a].1],
                    ),
            decreases n - k,
        {
            proof {
                use_type_invariant(&*self);
            }
            let id = entries[k].1;
            let dir = entries[k].2;
            let ghost ids_before = es.take(k as int);
            proof {
                assert(t0.contains_key((old_schema@, es[k as int].0)));
                assert(cm0.contains_key(t0[(old_schema@, es[k as int].0)].0));
                assert forall|a: int| 0 <= a < ids_before.len() implies ids_before[a].1 != id by {
                    assert(ids_before[a] == es[a]);
                    assert(t0.contains_key((old_schema@, es[a].0)));
                    assert(es[a].0 != es[k as int].0);
                    assert(t0[(old_schema@, es[a].0)].0 == es[a].1);
                    assert(t0[(old_schema@, es[k as int].0)].0 == es[k as int].1);
                    assert(t0[(old_schema@, es[a].0)].0 != t0[(old_schema@, es[k as int].0)].0);
                }
                lemma_fold_untouched(cs_views(cm0), t0, ids_before, new_name@, new_hash, id);
                assert(es.take(k + 1).drop_last() =~= ids_before);
            }
            let found = self.find_changeset(id);
            proof {
                if found is None {
                    lemma_assoc_absent(self.changesets@, changeset_key(), changeset_val(), id);
                }
            }
            let j = found.unwrap();
            let ghost pre_sets = self.changesets@;
            let ghost cm_cur = self.changeset_map();
            let ghost t_cur = self.tree();
            proof {
                lemma_assoc_lookup(pre_sets, changeset_key(), changeset_val(), j as int);
            }
            let mut sets = Vec::new();
            std::mem::swap(&mut sets, &mut self.changesets);
            let mut c = sets.remove(j);
            let old_source = c.old_version.clone();
            let old_target = c.new_version.clone();
            let mut file = old_source.clone();
            file.append(" ");
            file.append(old_target.as_str());
            file.append(".bs.diff");
            let path = join_path(self.changeset_folder.as_str(), file.as_str());
            match dir {
                Direction::Forward => {
                    c.old_version = new_name.clone();
                    c.old_hash = new_hash;
                },
                Direction::Backwards => {
                    c.new_version = new_name.clone();
                    c.new_hash = new_hash;
                },
            }
            let new_source = c.old_version.clone();
            let new_target = c.new_version.clone();
            let ghost c2 = c;
            sets.insert(j, c);
            proof {
                assert(sets@ =~= pre_sets.update(j as int, c2));
                lemma_assoc_update(pre_sets, changeset_key(), changeset_val(), j as int, c2);
            }
            self.changesets = sets;
            proof {
                assert(self.changeset_map() == cm_cur.insert(id, c2));
                assert(cs_views(self.changeset_map()) =~= cs_views(cm_cur).insert(id, cs_view(c2)));
                assert(cs_view(c2) == renamed_view(cs_views(cm_cur)[id], dir, new_name@, new_hash));
            }
            self.tree_remove(old_source.as_str(), old_target.as_str());
            self.tree_remove(old_target.as_str(), old_source.as_str());
            self.tree_insert(new_source.clone(), new_target.clone(), id, Direction::Forward);
            self.tree_insert(new_target, new_source, id, Direction::Backwards);
            removed.push(path);
            saved.push(id);
            proof {
                assert(saved@ =~= es.take(k + 1).map_values(|e: (Seq<char>, u64, Direction)| e.1));
                assert forall|id2: u64| cm0.contains_key(id2) implies same_rest(
                    cm0[id2],
                    #[trigger] self.changeset_map()[id2],
                ) by {
                    if id2 == id {
                        assert(same_rest(cm0[id], cm_cur[id]));
                    } else {
                        assert(same_rest(cm0[id2], cm_cur[id2]));
                    }
                }
                assert(self.changeset_map().dom() =~= cm0.dom());
            }
            k = k + 1;
        }
        proof {
            assert(es.take(n as int) =~= es);
        }
        let mut schema_name = old_schema.clone();
        schema_name.append(".bs");
        let removed_schema = join_path(self.schema_folder.as_str(), schema_name.as_str());
        Ok(
            RenameFiles {
                removed_changesets: removed,
                saved_changesets: saved,
                removed_schema,
                saved_schema: new_name,
            },
        )
    }
}

/// `e` reports that the version tree already links `old` to `new`, by the changeset `c`.
pub open spec fn is_linked_error(e: GenError, c: ChangeSet) -> bool {
    is_duplicate(e, "changeset"@, c.old_version@, c.new_version@, c.old_hash, c.new_hash)
}

impl Project {
    /// Where the schema `schema` is saved: `<name>.bs` in the schema folder.
    pub fn save_schema(&self, schema: &String) -> (r: GenResult<String>)
        ensures
            match r {
                Ok(p) => self.schema_map().contains_key(schema@) && p@ == schema_file(
                    self.spec_schema_folder(),
                    self.schema_map()[schema@].version@,
                ),
                Err(e) => !self.schema_map().contains_key(schema@) && is_unknown_schema(e, schema@),
            },
    {
        let s = self.get_schema(schema)?;
        let mut file = s.version.clone();
        file.append(".bs");
        Ok(join_path(self.schema_folder.as_str(), file.as_str()))
    }

    /// Where the changeset `id` is saved, `<old> <new>.bs.diff` in the changeset folder,
    /// once it is checked against its schemas.
    pub fn save_changeset(&self, id: &u64) -> (r: GenResult<String>)
        ensures
            match r {
                Ok(p) => self.changeset_map().contains_key(*id) && changeset_matches(
                    self.schema_map(),
                    self.changeset_map()[*id],
                ) && p@ == changeset_file(
                    self.spec_changeset_folder(),
                    cs_view(self.changeset_map()[*id]),
                ),
                Err(e) => if !self.changeset_map().contains_key(*id) {
                    e == GenError::UnknownChangeset { name: *id }
                } else {
                    !changeset_matches(self.schema_map(), self.changeset_map()[*id])
                        && is_changeset_error(self.schema_map(), self.changeset_map()[*id], e)
                },
            },
    {
        let c = self.get_changeset(id)?;
        self.test_changeset(c)?;
        let mut file = c.old_version.clone();
        file.append(" ");
        file.append(c.new_version.as_str());
        file.append(".bs.diff");
        Ok(join_path(self.changeset_folder.as_str(), file.as_str()))
    }

    /// Check that a changeset from the schema `old_version` to the schema `new_version` can be
    /// added: both schemas exist, and the version tree does not link them already (then the
    /// error names the changeset that links them).
    pub fn check_new_link(&self, old_version: &String, new_version: &String) -> (r: GenResult<()>)
        ensures
            ({
                let sm = self.schema_map();
                let cm = self.changeset_map();
                let t = self.tree();
                match r {
                    Ok(_) => sm.contains_key(old_version@) && sm.contains_key(new_version@) && !t.contains_key(
                        (old_version@, new_version@),
                    ),
                    Err(e) => if !sm.contains_key(old_version@) {
                        is_unknown_schema(e, old_version@)
                    } else if !sm.contains_key(new_version@) {
                        is_unknown_schema(e, new_version@)
                    } else if cm.contains_key(t[(old_version@, new_version@)].0) {
                        t.contains_key((old_version@, new_version@)) && is_linked_error(
                            e,
                            cm[t[(old_version@, new_version@)].0],
                        )
                    } else {
                        t.contains_key((old_version@, new_version@)) && e == GenError::UnknownChangeset {
                            name: t[(old_version@, new_version@)].0,
                        }
                    },
                }
            }),
    {
        proof {
            use_type_invariant(self);
        }
        self.get_schema(old_version)?;
        self.get_schema(new_version)?;
        match self.find_edge(old_version.as_str(), new_version.as_str()) {
            Some(i) => {
                proof {
                    lemma_assoc_lookup(self.version_tree@, edge_key(), edge_val(), i as int);
                }
                let id = self.version_tree[i].id;
                let c = self.get_changeset(&id)?;
                Err(
                    GenError::DuplicateKeys {
                        kind: String::from_str("changeset"),
                        old: c.old_version.clone(),
                        new: c.new_version.clone(),
                        old_hash: c.old_hash,
                        new_hash: c.new_hash,
                    },
                )
            },
            None => {
                proof {
                    lemma_assoc_absent(self.version_tree@, edge_key(), edge_val(), (old_version@, new_version@));
                }
                Ok(())
            },
        }
    }

    /// Register `built`, the changeset computed from the schema `old_version` to the schema
    /// `new_version`: it goes from the one to the other and records both schemas' hashes.
    /// Both schemas must exist, and the version tree must not link them already.
    pub fn create_changeset(&mut self, old_version: &String, new_version: &String, built: ChangeSet) -> (r: GenResult<u64>)
        requires
            built.old_version@ == old_version@,
            built.new_version@ == new_version@,
            old(self).schema_map().contains_key(old_version@) ==> built.old_hash == old(self).schema_map()[old_version@].hash,
            old(self).schema_map().contains_key(new_version@) ==> built.new_hash == old(self).schema_map()[new_version@].hash,
        ensures
            final(self).schema_map() == old(self).schema_map(),
            final(self).spec_schema_folder() == old(self).spec_schema_folder(),
            final(self).spec_changeset_folder() == old(self).spec_changeset_folder(),
            ({
                let sm = old(self).schema_map();
                let cm = old(self).changeset_map();
                let t = old(self).tree();
                if !sm.contains_key(old_version@) || !sm.contains_key(new_version@) || t.contains_key((old_version@, new_version@)) {
                    &&& final(self).changeset_map() == cm
                    &&& final(self).tree() == t
                    &&& r matches Err(e) && if !sm.contains_key(old_version@) {
                        is_unknown_schema(e, old_version@)
                    } else if !sm.contains_key(new_version@) {
                        is_unknown_schema(e, new_version@)
                    } else if cm.contains_key(t[(old_version@, new_version@)].0) {
                        is_linked_error(e, cm[t[(old_version@, new_version@)].0])
                    } else {
                        e == GenError::UnknownChangeset { name: t[(old_version@, new_version@)].0 }
                    }
                } else {
                    &&& final(self).changeset_map() == cm.insert(built.id, built)
                    &&& final(self).tree() == tree_with(t, built)
                    &&& match r {
                        Ok(id) => {
                            &&& id == built.id
                            &&& !cm.contains_key(built.id)
                            &&& final(self).changeset_map()[id].old_version@ == old_version@
                            &&& final(self).changeset_map()[id].new_version@ == new_version@
                            &&& changeset_matches(sm, final(self).changeset_map()[id])
                        },
                        Err(e) => cm.contains_key(built.id) && is_duplicate(
                            e,
                            "changset"@,
                            cm[built.id].old_version@,
                            cm[built.id].new_version@,
                            cm[built.id].old_hash,
                            cm[built.id].new_hash,
                        ),
                    }
                }
            }),
    {
        self.check_new_link(old_version, new_version)?;
        self.add_changeset(built)
    }

    /// Whether the changeset `id` records hashes that its schemas no longer have.
    pub fn needs_update(&self, id: &u64) -> (r: GenResult<bool>)
        ensures
            ({
                let sm = self.schema_map();
                let cm = self.changeset_map();
                match r {
                    Ok(b) => cm.contains_key(*id) && sm.contains_key(cm[*id].old_version@)
                        && sm.contains_key(cm[*id].new_version@) && b == (cm[*id].old_hash
                        != sm[cm[*id].old_version@].hash || cm[*id].new_hash
                        != sm[cm[*id].new_version@].hash),
                    Err(e) => if !cm.contains_key(*id) {
                        e == GenError::UnknownChangeset { name: *id }
                    } else if !sm.contains_key(cm[*id].old_version@) {
                        is_unknown_schema(e, cm[*id].old_version@)
                    } else {
                        !sm.contains_key(cm[*id].new_version@) && is_unknown_schema(e, cm[*id].new_version@)
                    },
                }
            }),
    {
        let c = self.get_changeset(id)?;
        let old_hash = self.get_schema(&c.old_version)?.hash;
        let new_hash = self.get_schema(&c.new_version)?.hash;
        Ok(c.old_hash != old_hash || c.new_hash != new_hash)
    }

    /// Bring the changeset `id` up to date with its schemas: when it records other hashes
    /// than theirs, it is taken out and `rebuilt`, the changeset computed again between its
    /// two schemas, takes its place. Gives the id of the changeset to save, if any.
    pub fn update_changeset(&mut self, id: &u64, rebuilt: ChangeSet) -> (r: GenResult<Option<u64>>)
        requires
            old(self).changeset_map().contains_key(*id) ==> {
                let c = old(self).changeset_map()[*id];
                let sm = old(self).schema_map();
                &&& rebuilt.old_version@ == c.old_version@
                &&& rebuilt.new_version@ == c.new_version@
                &&& sm.contains_key(c.old_version@) ==> rebuilt.old_hash == sm[c.old_version@].hash
                &&& sm.contains_key(c.new_version@) ==> rebuilt.new_hash == sm[c.new_version@].hash
            },
        ensures
            final(self).schema_map() == old(self).schema_map(),
            final(self).spec_schema_folder() == old(self).spec_schema_folder(),
            final(self).spec_changeset_folder() == old(self).spec_changeset_folder(),
            ({
                let sm = old(self).schema_map();
                let cm = old(self).changeset_map();
                let t = old(self).tree();
                let known = cm.contains_key(*id) && sm.contains_key(cm[*id].old_version@)
                    && sm.contains_key(cm[*id].new_version@);
                let rest = cm.remove(*id);
                match r {
                    Ok(None) => final(self).changeset_map() == cm && final(self).tree() == t && cm.contains_key(*id)
                        && changeset_matches(sm, cm[*id]),
                    Ok(Some(new_id)) => known && !changeset_matches(sm, cm[*id]) && new_id == rebuilt.id
                        && changeset_matches(sm, rebuilt) && !rest.contains_key(rebuilt.id)
                        && final(self).changeset_map() == rest.insert(rebuilt.id, rebuilt)
                        && final(self).tree() == tree_with(tree_without(t, cm[*id]), rebuilt),
                    Err(e) => if !known {
                        &&& final(self).changeset_map() == cm
                        &&& final(self).tree() == t
                        &&& if !cm.contains_key(*id) {
                            e == GenError::UnknownChangeset { name: *id }
                        } else if !sm.contains_key(cm[*id].old_version@) {
                            is_unknown_schema(e, cm[*id].old_version@)
                        } else {
                            is_unknown_schema(e, cm[*id].new_version@)
                        }
                    } else {
                        &&& !changeset_matches(sm, cm[*id])
                        &&& rest.contains_key(rebuilt.id)
                        &&& final(self).changeset_map() == rest.insert(rebuilt.id, rebuilt)
                        &&& final(self).tree() == tree_with(tree_without(t, cm[*id]), rebuilt)
                        &&& is_duplicate(
                            e,
                            "changset"@,
                            rest[rebuilt.id].old_version@,
                            rest[rebuilt.id].new_version@,
                            rest[rebuilt.id].old_hash,
                            rest[rebuilt.id].new_hash,
                        )
                    },
                }
            }),
    {
        let outdated = self.needs_update(id)?;
        if !outdated {
            return Ok(None);
        }
        let c = self.remove_changeset(*id)?;
        let from = c.old_version.clone();
        let to = c.new_version.clone();
        assert(!self.tree().contains_key((from@, to@)));
        let new_id = self.create_changeset(&from, &to, rebuilt);
        match new_id {
            Ok(x) => Ok(Some(x)),
            Err(e) => Err(e),
        }
    }
}

/// The version tree the changesets `cs` make up when they are registered in order.
pub open spec fn tree_of(cs: Seq<ChangeSet>) -> VersionTree
    decreases cs.len(),
{
    if cs.len() == 0 {
        VersionTree::empty()
    } else {
        tree_with(tree_of(cs.drop_last()), cs.last())
    }
}

/// `j` is the first entry whose key was already taken, by the entry `i`.
pub open spec fn first_repeat<E, K>(s: Seq<E>, key: spec_fn(E) -> K, i: int, j: int) -> bool {
    &&& 0 <= i < j < s.len()
    &&& key(s[i]) == key(s[j])
    &&& unique_keys(s.subrange(0, j), key)
}

/// `e` reports the first schema of `s` whose name was already taken.
pub open spec fn is_schema_repeat(s: Seq<Schema>, e: GenError) -> bool {
    exists|i: int, j: int|
        first_repeat(s, schema_key(), i, j) && is_duplicate(
            e,
            "schema"@,
            s[i].version@,
            s[j].version@,
            s[i].hash,
            s[j].hash,
        )
}

/// `e` reports the first changeset of `s` whose id was already taken.
pub open spec fn is_changeset_repeat(s: Seq<ChangeSet>, e: GenError) -> bool {
    exists|i: int, j: int|
        first_repeat(s, changeset_key(), i, j) && is_duplicate(
            e,
            "changset"@,
            s[i].old_version@,
            s[i].new_version@,
            s[i].old_hash,
            s[i].new_hash,
        )
}

/// `e` is an error the integrity check of a project with these schemas, changesets and
/// version tree can report.
pub open spec fn is_integrity_error(schemas: SchemaMap, changesets: ChangeSetMap, tree: VersionTree, e: GenError) -> bool {
    (exists|k: (Seq<char>, Seq<char>)|
        tree.contains_key(k) && is_tree_entry_error(schemas, changesets, k, tree[k], e)) || (
    tree_consistent(schemas, changesets, tree) && exists|id: u64|
        changesets.contains_key(id) && is_changeset_error(schemas, changesets[id], e))
}

proof fn lemma_map_len<E, K, V>(s: Seq<E>, key: spec_fn(E) -> K, val: spec_fn(E) -> V)
    requires
        unique_keys(s, key),
    ensures
        assoc_map(s, key, val).dom().finite(),
        assoc_map(s, key, val).len() == s.len(),
    decreases s.len(),
{
    if s.len() > 0 {
        let t = s.drop_last();
        assert(unique_keys(t, key)) by {
            assert forall|a: int, b: int| 0 <= a < t.len() && 0 <= b < t.len() && a != b implies key(t[a]) != key(t[b]) by {
                assert(key(s[a]) != key(s[b]));
            }
        }
        lemma_map_len(t, key, val);
        assert forall|i: int| 0 <= i < t.len() implies key(t[i]) != key(s.last()) by {
            assert(key(s[i]) != key(s[s.len() - 1]));
        }
        lemma_assoc_absent(t, key, val, key(s.last()));
    }
}

/// Whether two strings hold the same text.
pub fn str_equal(a: &str, b: &str) -> (r: bool)
    ensures
        r == (a@ == b@),
{
    let n = a.unicode_len();
    let m = b.unicode_len();
    if n != m {
        return false;
    }
    let mut i: usize = 0;
    while i < n
        invariant
            n == a@.len(),
            m == b@.len(),
            n == m,
            i <= n,
            forall|j: int| 0 <= j < i ==> a@[j] == b@[j],
        decreases n - i,
    {
        if a.get_char(i) != b.get_char(i) {
            return false;
        }
        i = i + 1;
    }
    assert(a@ =~= b@);
    true
}

/// A schema that was added is what a lookup of its version name gives back, and
/// adding it leaves every other schema as it was.
pub proof fn law_schema_read_after_write(schemas: SchemaMap, schema: Schema, other: Seq<char>)
    ensures
        schemas.insert(schema.version@, schema).contains_key(schema.version@),
        schemas.insert(schema.version@, schema)[schema.version@] == schema,
        other != schema.version@ ==> (schemas.insert(schema.version@, schema).contains_key(other)
            == schemas.contains_key(other)),
        other != schema.version@ && schemas.contains_key(other) ==> schemas.insert(
            schema.version@,
            schema,
        )[other] == schemas[other],
{
}

/// Registering a changeset and taking it out again leaves the changesets and the
/// version tree as they were, when neither its id nor the link between its two
/// versions was in use.
pub proof fn law_add_then_remove_changeset(changesets: ChangeSetMap, tree: VersionTree, c: ChangeSet)
    requires
        !changesets.contains_key(c.id),
        !tree.contains_key((c.old_version@, c.new_version@)),
        !tree.contains_key((c.new_version@, c.old_version@)),
    ensures
        changesets.insert(c.id, c).remove(c.id) == changesets,
        tree_without(tree_with(tree, c), c) == tree,
{
    assert(changesets.insert(c.id, c).remove(c.id) =~= changesets);
    assert(tree_without(tree_with(tree, c), c) =~= tree);
}

/// Once a changeset links two different versions, its old version is no longer a
/// head and its new version no longer a root.
pub proof fn law_changeset_links_versions(schemas: SchemaMap, tree: VersionTree, c: ChangeSet)
    requires
        c.old_version@ != c.new_version@,
    ensures
        !is_head(schemas, tree_with(tree, c), c.old_version@),
        !is_root(schemas, tree_with(tree, c), c.new_version@),
{
    let t = tree_with(tree, c);
    assert(t.contains_key((c.old_version@, c.new_version@)));
    assert(t[(c.old_version@, c.new_version@)].1 == Direction::Forward);
    assert(t.contains_key((c.new_version@, c.old_version@)));
    assert(t[(c.new_version@, c.old_version@)].1 == Direction::Backwards);
}

/// Once a changeset is made, changing either of its two schemas (a schema under
/// its version name with another hash than the one recorded) makes the project
/// fail its integrity check.
pub proof fn law_changed_schema_breaks_changeset(
    schemas: SchemaMap,
    changesets: ChangeSetMap,
    id: u64,
    schema: Schema,
)
    requires
        changesets.contains_key(id),
        (schema.version@ == changesets[id].old_version@ && schema.hash != changesets[id].old_hash)
            || (schema.version@ == changesets[id].new_version@ && schema.hash
            != changesets[id].new_hash),
    ensures
        !changeset_matches(schemas.insert(schema.version@, schema), changesets[id]),
        !changesets_match(schemas.insert(schema.version@, schema), changesets),
{
}

} // verus!
