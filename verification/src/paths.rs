//! Paths written as strings: what the standard library says of them, and the table of the paths
//! that have been sourced. Separators and roots are those of the system that the library is built
//! for.
use std::path::Path;
use vstd::prelude::*;

verus! {

/// The path without its last component, where it has one.
pub uninterp spec fn path_parent(path: Seq<char>) -> Option<Seq<char>>;

/// A path set behind a directory.
pub uninterp spec fn path_join(base: Seq<char>, path: Seq<char>) -> Seq<char>;

/// Whether a path does not depend on a current directory.
pub uninterp spec fn path_is_absolute(path: Seq<char>) -> bool;

/// The components of a path. Two paths are the same if and only if these are.
pub uninterp spec fn path_components(path: Seq<char>) -> Seq<Seq<char>>;

/// Calls `Path::parent`. Trusted: the result is a function of the path.
#[verifier::external_body]
pub(crate) fn parent(path: &str) -> (res: Option<String>)
    ensures
        match res {
            Some(base) => path_parent(path@) == Some(base@),
            None => path_parent(path@) is None,
        },
{
    Path::new(path).parent().map(|base| base.to_str().unwrap().to_owned())
}

/// Calls `Path::join`. Trusted: the result is a function of the two paths, and an absolute path
/// takes the place of the base.
#[verifier::external_body]
pub(crate) fn join(base: &str, path: &str) -> (res: String)
    ensures
        res@ == path_join(base@, path@),
        path_is_absolute(path@) ==> res@ == path@,
{
    Path::new(base).join(path).to_str().unwrap().to_owned()
}

/// Calls `Path::is_absolute`. Trusted: the result is a function of the path.
#[verifier::external_body]
pub(crate) fn is_absolute(path: &str) -> (res: bool)
    ensures
        res == path_is_absolute(path@),
{
    Path::new(path).is_absolute()
}

/// Calls `Path::components`. Trusted: the result is a function of the path.
#[verifier::external_body]
pub(crate) fn components(path: &str) -> (res: Vec<String>)
    ensures
        res.deep_view() == path_components(path@),
{
    Path::new(path).components().map(|c| c.as_os_str().to_str().unwrap().to_owned()).collect()
}

/// The path that a `source` statement in a file of the directory `base` names: an absolute path
/// stands for itself, another is set behind the directory.
pub fn resolve(base: &str, source: &str) -> (res: String)
    ensures
        res@ == path_join(base@, source@),
        path_is_absolute(source@) ==> res@ == source@,
{
    let absolute_source_path = join(base, source);
    if is_absolute(source) {
        source.to_owned()
    } else {
        absolute_source_path
    }
}

/// Whether two lists of strings hold the same strings.
fn same_strings(a: &Vec<String>, b: &Vec<String>) -> (res: bool)
    ensures
        res == (a.deep_view() == b.deep_view()),
{
    if a.len() != b.len() {
        assert(a.deep_view().len() != b.deep_view().len());
        return false;
    }
    let mut i: usize = 0;
    while i < a.len()
        invariant
            i <= a.len(),
            a.len() == b.len(),
            forall|j: int| 0 <= j < i ==> a.deep_view()[j] == b.deep_view()[j],
        decreases a.len() - i,
    {
        if a[i] != b[i] {
            assert(a.deep_view()[i as int] != b.deep_view()[i as int]);
            return false;
        }
        i += 1;
    }
    assert(a.deep_view() =~= b.deep_view());
    true
}

/// A path that a `source` statement has named.
pub struct SourcedPath {
    pub components: Vec<String>,
    /// Whether its expansion is still in progress.
    pub in_progress: bool,
}

/// The paths that have been sourced, each with whether its expansion is still in progress. A path
/// is found again by its components.
pub struct SourcedPaths {
    entries: Vec<SourcedPath>,
}

/// What a list of entries says: of two entries with one path, the earlier one counts.
spec fn table(entries: Seq<SourcedPath>) -> Map<Seq<Seq<char>>, bool>
    decreases entries.len(),
{
    if entries.len() == 0 {
        Map::empty()
    } else {
        table(entries.drop_first()).insert(
            entries[0].components.deep_view(),
            entries[0].in_progress,
        )
    }
}

impl View for SourcedPaths {
    type V = Map<Seq<Seq<char>>, bool>;

    closed spec fn view(&self) -> Map<Seq<Seq<char>>, bool> {
        table(self.entries@)
    }
}

/// The entry at `at`, the first with its path, decides what the table says of that path.
proof fn table_at_first(entries: Seq<SourcedPath>, at: int)
    requires
        0 <= at < entries.len(),
        forall|j: int|
            0 <= j < at ==> entries[j].components.deep_view()
                != entries[at].components.deep_view(),
    ensures
        table(entries).contains_key(entries[at].components.deep_view()),
        table(entries)[entries[at].components.deep_view()] == entries[at].in_progress,
    decreases entries.len(),
{
    if at > 0 {
        let rest = entries.drop_first();
        let key = entries[at].components.deep_view();
        assert(rest[at - 1] == entries[at]);
        assert forall|j: int| 0 <= j < at - 1 implies rest[j].components.deep_view() != key by {
            assert(rest[j] == entries[j + 1]);
        }
        table_at_first(rest, at - 1);
    }
}

/// A path that no entry has is not in the table.
proof fn table_without(entries: Seq<SourcedPath>, key: Seq<Seq<char>>)
    requires
        forall|j: int| 0 <= j < entries.len() ==> entries[j].components.deep_view() != key,
    ensures
        !table(entries).contains_key(key),
    decreases entries.len(),
{
    if entries.len() > 0 {
        let rest = entries.drop_first();
        assert forall|j: int| 0 <= j < rest.len() implies rest[j].components.deep_view()
            != key by {
            assert(rest[j] == entries[j + 1]);
        }
        table_without(rest, key);
    }
}

/// Changing the first entry with a path changes what the table says of that path alone.
proof fn table_updated(entries: Seq<SourcedPath>, at: int, entry: SourcedPath)
    requires
        0 <= at < entries.len(),
        entry.components.deep_view() == entries[at].components.deep_view(),
        forall|j: int|
            0 <= j < at ==> entries[j].components.deep_view()
                != entries[at].components.deep_view(),
    ensures
        table(entries.update(at, entry)) == table(entries).insert(
            entry.components.deep_view(),
            entry.in_progress,
        ),
    decreases entries.len(),
{
    let rest = entries.drop_first();
    let updated = entries.update(at, entry);
    if at == 0 {
        assert(updated.drop_first() =~= rest);
        assert(table(updated) =~= table(entries).insert(
            entry.components.deep_view(),
            entry.in_progress,
        ));
    } else {
        let key = entries[at].components.deep_view();
        assert(rest[at - 1] == entries[at]);
        assert forall|j: int| 0 <= j < at - 1 implies rest[j].components.deep_view() != key by {
            assert(rest[j] == entries[j + 1]);
        }
        table_updated(rest, at - 1, entry);
        assert(updated.drop_first() =~= rest.update(at - 1, entry));
        assert(entries[0].components.deep_view() != entry.components.deep_view());
        assert(table(updated) =~= table(entries).insert(
            entry.components.deep_view(),
            entry.in_progress,
        ));
    }
}

/// An entry put behind the others counts where its path is new.
proof fn table_extended(entries: Seq<SourcedPath>, entry: SourcedPath)
    requires
        forall|j: int|
            0 <= j < entries.len() ==> entries[j].components.deep_view()
                != entry.components.deep_view(),
    ensures
        table(entries.push(entry)) == table(entries).insert(
            entry.components.deep_view(),
            entry.in_progress,
        ),
    decreases entries.len(),
{
    let extended = entries.push(entry);
    if entries.len() == 0 {
        assert(extended.drop_first() =~= entries);
    } else {
        let rest = entries.drop_first();
        assert forall|j: int| 0 <= j < rest.len() implies rest[j].components.deep_view()
            != entry.components.deep_view() by {
            assert(rest[j] == entries[j + 1]);
        }
        table_extended(rest, entry);
        assert(extended.drop_first() =~= rest.push(entry));
        assert(entries[0].components.deep_view() != entry.components.deep_view());
        assert(table(extended) =~= table(entries).insert(
            entry.components.deep_view(),
            entry.in_progress,
        ));
    }
}

/// Whether no two entries have the same path.
pub open spec fn distinct(entries: Seq<SourcedPath>) -> bool {
    forall|i: int, j: int|
        0 <= i < j < entries.len() ==> (#[trigger] entries[i]).components.deep_view() != (
        #[trigger] entries[j]).components.deep_view()
}

/// Of entries with distinct paths, each decides what the table says of its path.
proof fn table_at_each(entries: Seq<SourcedPath>)
    requires
        distinct(entries),
    ensures
        forall|i: int|
            #![trigger entries[i]]
            0 <= i < entries.len() ==> table(entries).get(entries[i].components.deep_view())
                == Some(entries[i].in_progress),
        forall|key: Seq<Seq<char>>|
            table(entries).contains_key(key) ==> exists|i: int|
                0 <= i < entries.len() && (#[trigger] entries[i]).components.deep_view() == key,
{
    assert forall|i: int|
        #![trigger entries[i]]
        0 <= i < entries.len() implies table(entries).get(entries[i].components.deep_view())
        == Some(entries[i].in_progress) by {
        table_at_first(entries, i);
    }
    assert forall|key: Seq<Seq<char>>| table(entries).contains_key(key) implies exists|i: int|
        0 <= i < entries.len() && (#[trigger] entries[i]).components.deep_view() == key by {
        if forall|i: int|
            0 <= i < entries.len() ==> (#[trigger] entries[i]).components.deep_view() != key {
            table_without(entries, key);
        }
    }
}

impl SourcedPaths {
    #[verifier::type_invariant]
    spec fn inv(self) -> bool {
        distinct(self.entries@)
    }

    /// The entries of the table, one for each path that it speaks of.
    pub fn entries(&self) -> (res: &Vec<SourcedPath>)
        ensures
            distinct(res@),
            forall|i: int|
                #![trigger res@[i]]
                0 <= i < res@.len() ==> self@.get(res@[i].components.deep_view()) == Some(
                    res@[i].in_progress,
                ),
            forall|key: Seq<Seq<char>>|
                self@.contains_key(key) ==> exists|i: int|
                    0 <= i < res@.len() && (#[trigger] res@[i]).components.deep_view() == key,
    {
        proof {
            use_type_invariant(self);
            table_at_each(self.entries@);
        }
        &self.entries
    }

    /// A table in which no path has been sourced.
    pub fn new() -> (res: Self)
        ensures
            res@ == Map::<Seq<Seq<char>>, bool>::empty(),
    {
        SourcedPaths { entries: Vec::new() }
    }

    /// Where the first entry with these components stands.
    fn position(&self, key: &Vec<String>) -> (res: Option<usize>)
        ensures
            match res {
                Some(at) => {
                    &&& at < self.entries@.len()
                    &&& self.entries@[at as int].components.deep_view() == key.deep_view()
                    &&& forall|j: int|
                        0 <= j < at ==> self.entries@[j].components.deep_view() != key.deep_view()
                },
                None => forall|j: int|
                    0 <= j < self.entries@.len() ==> self.entries@[j].components.deep_view()
                        != key.deep_view(),
            },
    {
        let mut i: usize = 0;
        while i < self.entries.len()
            invariant
                i <= self.entries@.len(),
                forall|j: int|
                    0 <= j < i ==> self.entries@[j].components.deep_view() != key.deep_view(),
            decreases self.entries@.len() - i,
        {
            if same_strings(&self.entries[i].components, key) {
                return Some(i);
            }
            i += 1;
        }
        None
    }

    /// What the table says of a path.
    pub fn get(&self, path: &str) -> (res: Option<bool>)
        ensures
            res == self@.get(path_components(path@)),
    {
        let key = components(path);
        match self.position(&key) {
            Some(at) => {
                proof {
                    table_at_first(self.entries@, at as int);
                }
                Some(self.entries[at].in_progress)
            },
            None => {
                proof {
                    table_without(self.entries@, key.deep_view());
                }
                None
            },
        }
    }

    /// Records whether the expansion of a path is in progress, and gives back what was recorded
    /// before.
    pub fn insert(&mut self, path: &str, in_progress: bool) -> (res: Option<bool>)
        ensures
            final(self)@ == old(self)@.insert(path_components(path@), in_progress),
            res == old(self)@.get(path_components(path@)),
    {
        proof {
            use_type_invariant(&*self);
        }
        let key = components(path);
        let ghost before = self.entries@;
        let at = self.position(&key);
        let entry = SourcedPath { components: key, in_progress };
        let mut entries: Vec<SourcedPath> = Vec::new();
        std::mem::swap(&mut entries, &mut self.entries);
        let was = match at {
            Some(at) => {
                let was = entries[at].in_progress;
                proof {
                    table_at_first(before, at as int);
                    table_updated(before, at as int, entry);
                }
                entries.set(at, entry);
                Some(was)
            },
            None => {
                proof {
                    table_without(before, entry.components.deep_view());
                    table_extended(before, entry);
                }
                entries.push(entry);
                None
            },
        };
        self.entries = entries;
        was
    }
}

} // verus!
