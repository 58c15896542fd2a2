//! The project manifest and its dependency table.

use crate::error::{ErrorView, PoetryError};
use crate::text::texts;
use crate::version::{Version, VersionView};
use vstd::prelude::*;

verus! {

/// The whole manifest file.
#[derive(Debug, PartialEq, Eq)]
pub struct PyProject {
    pub tool: Tool,
}

/// The block of the manifest that holds the settings of tools.
#[derive(Debug, PartialEq, Eq)]
pub struct Tool {
    pub poetry: Poetry,
}

/// What the manifest says of the project: who it is, and what it depends on.
#[derive(Debug, PartialEq, Eq)]
pub struct Poetry {
    pub name: String,
    pub version: String,
    pub description: String,
    pub license: Option<String>,
    pub authors: Option<Vec<Author>>,
    pub maintainers: Option<Vec<String>>,
    pub readme: Option<ReadMe>,
    pub url: Option<String>,
    pub repository: Option<String>,
    pub documentation: Option<String>,
    pub dependency: Option<DependencyTable>,
}

/// An author of the project.
#[derive(Debug, PartialEq, Eq)]
pub struct Author {
    pub name: String,
    pub email: String,
}

/// A maintainer of the project.
#[derive(Debug, PartialEq, Eq)]
pub struct Maintainer {
    pub name: String,
    pub email: Option<String>,
}

/// The files that make up the project's introduction.
#[derive(Debug, PartialEq, Eq)]
pub struct ReadMe {
    pub path: Vec<String>,
}

/// A dependency resolved to one version.
#[derive(Debug, PartialEq, Eq)]
pub struct Versioned {
    pub version: Version,
}

/// A dependency taken from a repository: where it lies and, if one was asked
/// for, the revision to take.
#[derive(Debug, PartialEq, Eq)]
pub struct GitSource {
    pub url: String,
    pub revision: Option<String>,
}

/// A resolved dependency, as the manifest records it.
#[derive(Debug, PartialEq, Eq)]
pub enum DependencyMetadata {
    Versioned(Versioned),
    Git(GitSource),
}

/// The mathematical value of a [`DependencyMetadata`].
pub enum MetadataView {
    Versioned { version: VersionView },
    Git { url: Seq<char>, revision: Option<Seq<char>> },
}

/// The text of an optional string.
pub open spec fn optional_text(s: Option<String>) -> Option<Seq<char>> {
    match s {
        Some(t) => Some(t@),
        None => None,
    }
}

impl View for DependencyMetadata {
    type V = MetadataView;

    open spec fn view(&self) -> MetadataView {
        match *self {
            DependencyMetadata::Versioned(v) => MetadataView::Versioned { version: v.version@ },
            DependencyMetadata::Git(g) => MetadataView::Git {
                url: g.url@,
                revision: optional_text(g.revision),
            },
        }
    }
}

/// The mathematical values of a list of metadata.
pub open spec fn metadata_views(list: Seq<DependencyMetadata>) -> Seq<MetadataView> {
    list.map_values(|m: DependencyMetadata| m@)
}

/// One line of the dependency table.
#[derive(Debug, PartialEq, Eq)]
pub struct Dependency {
    pub name: String,
    pub metadata: DependencyMetadata,
}

/// The names of a sequence of entries, in their order.
pub open spec fn entry_names(s: Seq<Dependency>) -> Seq<Seq<char>> {
    s.map_values(|e: Dependency| e.name@)
}

/// The mapping that a sequence of entries stands for. Where a name occurs
/// twice the later entry counts.
pub open spec fn entry_map(s: Seq<Dependency>) -> Map<Seq<char>, MetadataView>
    decreases s.len(),
{
    if s.len() == 0 {
        Map::empty()
    } else {
        entry_map(s.drop_last()).insert(s.last().name@, s.last().metadata@)
    }
}

/// No two entries bear the same name.
pub open spec fn distinct_names(s: Seq<Dependency>) -> bool {
    forall|i: int, j: int| 0 <= i < j < s.len() ==> s[i].name@ != s[j].name@
}

/// The names that occur in `names` and are keys of `table`, in the order of
/// `names`.
pub open spec fn declared(names: Seq<Seq<char>>, table: Map<Seq<char>, MetadataView>) -> Seq<
    Seq<char>,
>
    decreases names.len(),
{
    if names.len() == 0 {
        seq![]
    } else if table.contains_key(names.last()) {
        declared(names.drop_last(), table).push(names.last())
    } else {
        declared(names.drop_last(), table)
    }
}

/// Whether `table` gives each of the first `n` names the metadata that
/// stands at its place.
pub open spec fn pairs_up(
    table: Map<Seq<char>, MetadataView>,
    names: Seq<Seq<char>>,
    metadata: Seq<MetadataView>,
    n: int,
) -> bool {
    forall|k: int|
        0 <= k < n ==> #[trigger] table.contains_key(names[k]) && table[names[k]] == metadata[k]
}

/// Where the first name stands that repeats an earlier one, if any does.
pub open spec fn first_repeat(names: Seq<Seq<char>>) -> Option<int>
    decreases names.len(),
{
    if names.len() == 0 {
        None
    } else {
        match first_repeat(names.drop_last()) {
            Some(i) => Some(i),
            None => if names.drop_last().contains(names.last()) {
                Some(names.len() - 1)
            } else {
                None
            },
        }
    }
}

/// The keys of the mapping are the names of the entries.
pub proof fn lemma_entry_map_keys(s: Seq<Dependency>)
    ensures
        entry_map(s).dom().finite(),
        forall|k: Seq<char>|
            #![trigger entry_map(s).contains_key(k)]
            #![trigger entry_names(s).contains(k)]
            entry_map(s).contains_key(k) <==> entry_names(s).contains(k),
    decreases s.len(),
{
    if s.len() > 0 {
        let front = s.drop_last();
        lemma_entry_map_keys(front);
        assert forall|k: Seq<char>| entry_map(s).contains_key(k) <==> entry_names(s).contains(
            k,
        ) by {
            if entry_names(s).contains(k) {
                let i = choose|i: int| 0 <= i < s.len() && entry_names(s)[i] == k;
                if i < s.len() - 1 {
                    assert(entry_names(front)[i] == k);
                }
            }
            if entry_names(front).contains(k) {
                let i = choose|i: int| 0 <= i < front.len() && entry_names(front)[i] == k;
                assert(entry_names(s)[i] == k);
            }
            if k == s.last().name@ {
                assert(entry_names(s)[s.len() - 1] == k);
            }
        }
    }
}

/// Where the names are distinct the mapping gives each name the metadata of
/// its entry, and has as many keys as there are entries.
pub proof fn lemma_entry_map_values(s: Seq<Dependency>)
    requires
        distinct_names(s),
    ensures
        forall|i: int| 0 <= i < s.len() ==> entry_map(s)[#[trigger] s[i].name@] == s[i].metadata@,
        entry_map(s).len() == s.len(),
    decreases s.len(),
{
    if s.len() > 0 {
        let front = s.drop_last();
        lemma_entry_map_values(front);
        lemma_entry_map_keys(front);
        if entry_names(front).contains(s.last().name@) {
            let i = choose|i: int| 0 <= i < front.len() && entry_names(front)[i] == s.last().name@;
            assert(s[i].name@ == s[s.len() - 1].name@);
        }
        assert forall|i: int| 0 <= i < s.len() implies entry_map(s)[#[trigger] s[i].name@]
            == s[i].metadata@ by {
            if i < s.len() - 1 {
                assert(front[i] == s[i]);
            }
        }
    }
}

/// Appending entries to a sequence lays their mapping over that of the
/// sequence.
pub proof fn lemma_entry_map_concat(a: Seq<Dependency>, b: Seq<Dependency>)
    ensures
        entry_map(a + b) == entry_map(a).union_prefer_right(entry_map(b)),
    decreases b.len(),
{
    if b.len() == 0 {
        assert(a + b =~= a);
        assert(entry_map(a).union_prefer_right(entry_map(b)) =~= entry_map(a));
    } else {
        assert((a + b).drop_last() =~= a + b.drop_last());
        lemma_entry_map_concat(a, b.drop_last());
        assert(entry_map(a + b) =~= entry_map(a).union_prefer_right(entry_map(b)));
    }
}

/// Where a name repeats an earlier one and no name before it does, it is
/// the first to do so.
pub proof fn lemma_first_repeat_found(names: Seq<Seq<char>>, i: int)
    requires
        0 <= i < names.len(),
        first_repeat(names.take(i)) is None,
        names.take(i).contains(names[i]),
    ensures
        first_repeat(names) == Some(i),
    decreases names.len(),
{
    if i == names.len() - 1 {
        assert(names.take(i) =~= names.drop_last());
    } else {
        let front = names.drop_last();
        assert(front.take(i) =~= names.take(i));
        lemma_first_repeat_found(front, i);
    }
}

/// A name that is asked for and already a key of the table is declared: a
/// merge of such names never goes through.
pub proof fn lemma_declared_some(
    names: Seq<Seq<char>>,
    table: Map<Seq<char>, MetadataView>,
    name: Seq<char>,
)
    requires
        names.contains(name),
        table.contains_key(name),
    ensures
        declared(names, table).contains(name),
        declared(names, table).len() > 0,
{
    lemma_declared_members(names, table);
}

/// Where none of the names is a key of the table, none is declared: the
/// merge goes through.
pub proof fn lemma_declared_none(names: Seq<Seq<char>>, table: Map<Seq<char>, MetadataView>)
    requires
        forall|i: int| 0 <= i < names.len() ==> !table.contains_key(names[i]),
    ensures
        declared(names, table).len() == 0,
    decreases names.len(),
{
    if names.len() > 0 {
        let front = names.drop_last();
        assert forall|i: int| 0 <= i < front.len() implies !table.contains_key(front[i]) by {
            assert(front[i] == names[i]);
        }
        lemma_declared_none(front, table);
        assert(!table.contains_key(names[names.len() - 1]));
    }
}

/// Every declared name is one of `names` and a key of `table`; and a name
/// of `names` that is a key of `table` is declared.
pub proof fn lemma_declared_members(names: Seq<Seq<char>>, table: Map<Seq<char>, MetadataView>)
    ensures
        forall|k: Seq<char>|
            #![trigger declared(names, table).contains(k)]
            #![trigger names.contains(k)]
            declared(names, table).contains(k) <==> names.contains(k) && table.contains_key(k),
    decreases names.len(),
{
    if names.len() > 0 {
        let front = names.drop_last();
        let last = names.last();
        lemma_declared_members(front, table);
        assert forall|k: Seq<char>|
            declared(names, table).contains(k) <==> names.contains(k) && table.contains_key(
                k,
            ) by {
            let d = declared(names, table);
            let df = declared(front, table);
            if d.contains(k) {
                let i = choose|i: int| 0 <= i < d.len() && d[i] == k;
                if table.contains_key(last) && i == d.len() - 1 {
                    assert(names[names.len() - 1] == k);
                } else {
                    assert(df[i] == k);
                    assert(df.contains(k));
                    assert(front.contains(k));
                    let j = choose|j: int| 0 <= j < front.len() && front[j] == k;
                    assert(names[j] == k);
                }
            }
            if names.contains(k) && table.contains_key(k) {
                let j = choose|j: int| 0 <= j < names.len() && names[j] == k;
                if j == names.len() - 1 {
                    assert(d[d.len() - 1] == k);
                } else {
                    assert(front[j] == k);
                    assert(front.contains(k));
                    assert(df.contains(k));
                    let i = choose|i: int| 0 <= i < df.len() && df[i] == k;
                    assert(d[i] == k);
                }
            }
        }
    }
}

/// The dependency table of a manifest: resolved metadata by dependency name.
/// A name is a key as it is written, upper and lower case apart, and occurs
/// at most once. The order in which the entries were declared is kept, but
/// means nothing to the manifest.
#[derive(Debug, PartialEq, Eq)]
pub struct DependencyTable {
    entries: Vec<Dependency>,
}

impl View for DependencyTable {
    type V = Map<Seq<char>, MetadataView>;

    closed spec fn view(&self) -> Map<Seq<char>, MetadataView> {
        entry_map(self.entries@)
    }
}

impl DependencyTable {
    #[verifier::type_invariant]
    spec fn well_formed(self) -> bool {
        distinct_names(self.entries@)
    }

    /// The names of the table, in the order in which they were declared.
    pub closed spec fn names(&self) -> Seq<Seq<char>> {
        entry_names(self.entries@)
    }

    /// The entries of the table, in the order in which they were declared.
    pub closed spec fn entries(&self) -> Seq<Dependency> {
        self.entries@
    }

    /// A table without entries.
    pub fn new() -> (table: DependencyTable)
        ensures
            table@ == Map::<Seq<char>, MetadataView>::empty(),
            table.names() == Seq::<Seq<char>>::empty(),
            table.entries() == Seq::<Dependency>::empty(),
    {
        let table = DependencyTable { entries: Vec::new() };
        proof {
            assert(table.names() =~= Seq::<Seq<char>>::empty());
        }
        table
    }

    /// The number of entries.
    pub fn len(&self) -> (n: usize)
        ensures
            n == self@.len(),
            n == self.names().len(),
            self@.dom().finite(),
    {
        proof {
            use_type_invariant(self);
            lemma_entry_map_values(self.entries@);
            lemma_entry_map_keys(self.entries@);
        }
        self.entries.len()
    }

    /// Where the entry of `name` stands, if there is one.
    fn position(&self, name: &String) -> (at: Option<usize>)
        ensures
            at matches Some(i) ==> i < self.entries.len() && self.entries[i as int].name@ == name@,
            at is None ==> !self@.contains_key(name@),
            at is Some ==> self@.contains_key(name@),
    {
        let mut i: usize = 0;
        while i < self.entries.len()
            invariant
                i <= self.entries.len(),
                forall|k: int| 0 <= k < i ==> self.entries[k].name@ != name@,
            decreases self.entries.len() - i,
        {
            if self.entries[i].name == *name {
                proof {
                    lemma_entry_map_keys(self.entries@);
                    assert(entry_names(self.entries@)[i as int] == name@);
                    assert(entry_names(self.entries@).contains(name@));
                }
                return Some(i);
            }
            i += 1;
        }
        proof {
            lemma_entry_map_keys(self.entries@);
            if self@.contains_key(name@) {
                assert(entry_names(self.entries@).contains(name@));
                let k = choose|k: int|
                    0 <= k < self.entries.len() && entry_names(self.entries@)[k] == name@;
                assert(self.entries[k].name@ == name@);
            }
        }
        None
    }

    /// Whether `name` is declared.
    pub fn contains(&self, name: &String) -> (found: bool)
        ensures
            found == self@.contains_key(name@),
    {
        self.position(name).is_some()
    }

    /// The metadata declared for `name`.
    pub fn get(&self, name: &String) -> (found: Option<&DependencyMetadata>)
        ensures
            found is Some <==> self@.contains_key(name@),
            found matches Some(m) ==> m@ == self@[name@],
    {
        match self.position(name) {
            Some(i) => {
                proof {
                    use_type_invariant(self);
                    lemma_entry_map_values(self.entries@);
                }
                Some(&self.entries[i].metadata)
            },
            None => None,
        }
    }

    /// The entry that was declared as the `i`-th, counting from 0.
    pub fn entry(&self, i: usize) -> (found: Option<&Dependency>)
        ensures
            found is Some <==> i < self.names().len(),
            found matches Some(e) ==> {
                &&& *e == self.entries()[i as int]
                &&& e.name@ == self.names()[i as int]
                &&& e.metadata@ == self@[e.name@]
            },
    {
        if i < self.entries.len() {
            proof {
                use_type_invariant(self);
                lemma_entry_map_values(self.entries@);
            }
            Some(&self.entries[i])
        } else {
            None
        }
    }

    /// Declares `name`. A name that is already declared is refused and the
    /// table left as it was: an entry is never replaced.
    pub fn insert(&mut self, name: String, metadata: DependencyMetadata) -> (done: Result<
        (),
        PoetryError,
    >)
        ensures
            done is Ok <==> !old(self)@.contains_key(name@),
            done is Ok ==> {
                &&& final(self)@ == old(self)@.insert(name@, metadata@)
                &&& final(self).names() == old(self).names().push(name@)
                &&& final(self).entries() == old(self).entries().push(Dependency { name, metadata })
            },
            done matches Err(e) ==> {
                &&& *final(self) == *old(self)
                &&& e@ == (ErrorView::AddError { deps: seq![name@] })
            },
    {
        match self.position(&name) {
            Some(_) => {
                let mut deps: Vec<String> = Vec::new();
                deps.push(name);
                proof {
                    assert(texts(deps@) =~= seq![name@]);
                }
                Err(PoetryError::AddError { deps })
            },
            None => {
                proof {
                    use_type_invariant(&*self);
                    lemma_entry_map_keys(self.entries@);
                    let before = self.entries@;
                    let entry = Dependency { name, metadata };
                    let after = before.push(entry);
                    assert(after.drop_last() =~= before);
                    assert(entry_names(after) =~= entry_names(before).push(name@));
                    assert(!entry_names(before).contains(name@));
                    assert forall|i: int, j: int| 0 <= i < j < after.len() implies after[i].name@
                        != after[j].name@ by {
                        assert(after[i] == before[i]);
                        if j == before.len() {
                            assert(entry_names(before)[i] == before[i].name@);
                        } else {
                            assert(after[j] == before[j]);
                        }
                    }
                }
                let mut entries: Vec<Dependency> = Vec::new();
                core::mem::swap(&mut self.entries, &mut entries);
                entries.push(Dependency { name, metadata });
                core::mem::swap(&mut self.entries, &mut entries);
                Ok(())
            },
        }
    }

    /// The table that declares each name of `names` with the metadata that
    /// stands at its place in `metadata`.
    ///
    /// Nothing is declared where the lists differ in length: the error then
    /// holds all of `names`. Nothing is declared either where a name occurs
    /// twice: the error then holds the first name that repeats an earlier
    /// one.
    pub fn from_lists(names: &Vec<String>, metadata: Vec<DependencyMetadata>) -> (r: Result<
        DependencyTable,
        PoetryError,
    >)
        ensures
            r matches Ok(table) ==> {
                &&& names.len() == metadata.len()
                &&& first_repeat(texts(names@)) is None
                &&& table.names() == texts(names@)
                &&& pairs_up(
                    table@,
                    texts(names@),
                    metadata_views(metadata@),
                    names.len() as int,
                )
            },
            r matches Err(e) ==> {
                &&& names.len() != metadata.len() ==> e@ == (ErrorView::AddError {
                    deps: texts(names@),
                })
                &&& names.len() == metadata.len() ==> {
                    &&& first_repeat(texts(names@)) matches Some(i)
                    &&& e@ == (ErrorView::AddError { deps: seq![texts(names@)[i]] })
                }
            },
    {
        if names.len() != metadata.len() {
            let mut deps: Vec<String> = Vec::new();
            let mut i: usize = 0;
            while i < names.len()
                invariant
                    i <= names.len(),
                    texts(deps@) == texts(names@).take(i as int),
                decreases names.len() - i,
            {
                let name = names[i].clone();
                proof {
                    let t = texts(names@);
                    assert(t.take(i + 1) =~= t.take(i as int).push(name@));
                    assert(texts(deps@.push(name)) =~= texts(deps@).push(name@));
                }
                deps.push(name);
                i += 1;
            }
            proof {
                assert(texts(names@).take(names.len() as int) =~= texts(names@));
            }
            return Err(PoetryError::AddError { deps });
        }
        let ghost all = texts(names@);
        let ghost items = metadata@;
        let mut table = DependencyTable::new();
        let mut at: usize = 0;
        proof {
            assert(all.take(0) =~= Seq::<Seq<char>>::empty());
        }
        for item in it: metadata.into_iter()
            invariant
                at == it.index(),
                it.seq() == items,
                items.len() == names.len(),
                all == texts(names@),
                first_repeat(all.take(it.index())) is None,
                table.names() == all.take(it.index()),
                pairs_up(table@, all, metadata_views(items), it.index()),
        {
            let ghost done = it.index();
            let ghost before = table@;
            let ghost names_before = table.names();
            let name = names[at].clone();
            proof {
                assert(all.take(done + 1).drop_last() =~= all.take(done));
                assert(all.take(done + 1).last() == name@);
                table.lemma_names_are_keys();
            }
            match table.insert(name, item) {
                Ok(()) => {
                    at += 1;
                    proof {
                        assert(table.names() =~= all.take(done + 1));
                        assert forall|k: int| 0 <= k < done + 1 implies #[trigger] table@.contains_key(
                            all[k],
                        ) && table@[all[k]] == metadata_views(items)[k] by {
                            if k < done {
                                assert(before.contains_key(all[k]));
                            }
                        }
                        assert(pairs_up(table@, all, metadata_views(items), done + 1));
                    }
                },
                Err(e) => {
                    proof {
                        lemma_first_repeat_found(all, done);
                    }
                    return Err(e);
                },
            }
        }
        proof {
            assert(all.take(all.len() as int) =~= all);
        }
        Ok(table)
    }

    /// The names of a table are the keys of its mapping.
    pub proof fn lemma_names_are_keys(&self)
        ensures
            forall|k: Seq<char>|
                #![trigger self@.contains_key(k)]
                #![trigger self.names().contains(k)]
                self@.contains_key(k) <==> self.names().contains(k),
            self@.dom().finite(),
    {
        lemma_entry_map_keys(self.entries@);
    }

    /// Adds the entries of `update` to this table. Where a name of `update`
    /// is already declared here, nothing is merged: the outcome is an error
    /// that lists those names, in the order in which `update` declares
    /// them. An entry is never replaced.
    pub fn merge(self, update: DependencyTable) -> (r: Result<DependencyTable, PoetryError>)
        ensures
            r matches Ok(merged) ==> {
                &&& declared(update.names(), self@).len() == 0
                &&& merged@ == self@.union_prefer_right(update@)
                &&& merged.names() == self.names() + update.names()
                &&& merged.entries() == self.entries() + update.entries()
            },
            r matches Err(e) ==> {
                &&& declared(update.names(), self@).len() > 0
                &&& e@ == (ErrorView::AddError { deps: declared(update.names(), self@) })
            },
    {
        let mut clash: Vec<String> = Vec::new();
        let mut i: usize = 0;
        proof {
            assert(update.names().take(0) =~= Seq::<Seq<char>>::empty());
            assert(texts(clash@) =~= Seq::<Seq<char>>::empty());
        }
        while i < update.entries.len()
            invariant
                i <= update.entries.len(),
                texts(clash@) == declared(update.names().take(i as int), self@),
            decreases update.entries.len() - i,
        {
            proof {
                let names = update.names();
                assert(names.take(i + 1).drop_last() =~= names.take(i as int));
                assert(names.take(i + 1).last() == update.entries[i as int].name@);
            }
            if self.position(&update.entries[i].name).is_some() {
                let name = update.entries[i].name.clone();
                proof {
                    assert(texts(clash@.push(name)) =~= texts(clash@).push(name@));
                }
                clash.push(name);
            }
            i += 1;
        }
        proof {
            assert(update.names().take(update.entries.len() as int) =~= update.names());
        }
        if clash.len() > 0 {
            return Err(PoetryError::AddError { deps: clash });
        }
        proof {
            use_type_invariant(&self);
            use_type_invariant(&update);
            let a = self.entries@;
            let b = update.entries@;
            lemma_entry_map_concat(a, b);
            lemma_entry_map_keys(a);
            lemma_declared_members(entry_names(b), entry_map(a));
            assert(entry_names(a + b) =~= entry_names(a) + entry_names(b));
            assert forall|i: int, j: int| 0 <= i < j < (a + b).len() implies (a + b)[i].name@ != (a
                + b)[j].name@ by {
                if i < a.len() && j >= a.len() {
                    let k = b[j - a.len()].name@;
                    assert(entry_names(a)[i] == a[i].name@);
                    assert(entry_names(b)[j - a.len()] == k);
                    assert(entry_names(b).contains(k));
                    if a[i].name@ == k {
                        assert(entry_names(a).contains(k));
                        assert(declared(entry_names(b), entry_map(a)).contains(k));
                    }
                }
            }
        }
        let mut entries = self.entries;
        let mut more = update.entries;
        entries.append(&mut more);
        Ok(DependencyTable { entries })
    }
}

} // verus!
