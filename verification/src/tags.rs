//! Tags and the set of tags of one dataset.

use vstd::prelude::*;
use vstd::string::*;
use object_store::path::Path;
use crate::paths::path_text;

verus! {

/// What a tag records: the version it points at and, as a hint taken when the
/// tag was made, the size in bytes of that version's manifest.
#[derive(Debug, Clone, Copy, PartialEq, Eq, Structural)]
pub struct TagContents {
    pub version: u64,
    pub manifest_size: u64,
}

/// One tag of a set: its name and what it records.
#[derive(Debug, Clone)]
pub struct TagEntry {
    pub name: String,
    pub contents: TagContents,
}

/// The mapping that a sequence of entries stands for. Where a name occurs
/// more than once, the last entry counts.
pub open spec fn entries_map(entries: Seq<TagEntry>) -> Map<Seq<char>, TagContents>
    decreases entries.len(),
{
    if entries.len() == 0 {
        Map::empty()
    } else {
        entries_map(entries.drop_last()).insert(entries.last().name@, entries.last().contents)
    }
}

/// No name occurs twice among the entries.
pub open spec fn distinct_names(entries: Seq<TagEntry>) -> bool {
    forall|i: int, j: int|
        0 <= i < j < entries.len() ==> entries[i].name@ != entries[j].name@
}

/// The names mapped by a sequence of entries are the names of its entries.
pub proof fn lemma_entries_map_dom(entries: Seq<TagEntry>, name: Seq<char>)
    ensures
        entries_map(entries).contains_key(name) <==> exists|i: int|
            0 <= i < entries.len() && #[trigger] entries[i].name@ == name,
    decreases entries.len(),
{
    if entries.len() > 0 {
        let front = entries.drop_last();
        lemma_entries_map_dom(front, name);
        if entries_map(entries).contains_key(name) {
            if entries.last().name@ == name {
                assert(entries[entries.len() - 1].name@ == name);
            } else {
                let i = choose|i: int| 0 <= i < front.len() && #[trigger] front[i].name@ == name;
                assert(entries[i].name@ == name);
            }
        }
        if exists|i: int| 0 <= i < entries.len() && #[trigger] entries[i].name@ == name {
            let i = choose|i: int| 0 <= i < entries.len() && #[trigger] entries[i].name@ == name;
            if i < entries.len() - 1 {
                assert(front[i].name@ == name);
            }
        }
    }
}

/// Among entries with distinct names, each name is mapped to the contents of
/// its entry.
pub proof fn lemma_entries_map_value(entries: Seq<TagEntry>, i: int)
    requires
        distinct_names(entries),
        0 <= i < entries.len(),
    ensures
        entries_map(entries).contains_key(entries[i].name@),
        entries_map(entries)[entries[i].name@] == entries[i].contents,
    decreases entries.len(),
{
    let front = entries.drop_last();
    if i < entries.len() - 1 {
        assert(distinct_names(front)) by {
            assert forall|a: int, b: int| 0 <= a < b < front.len() implies front[a].name@
                != front[b].name@ by {
                assert(entries[a].name@ != entries[b].name@);
            }
        }
        lemma_entries_map_value(front, i);
        assert(front[i] == entries[i]);
    }
}

/// Entries with distinct names map as many names as there are entries.
pub proof fn lemma_entries_map_len(entries: Seq<TagEntry>)
    requires
        distinct_names(entries),
    ensures
        entries_map(entries).dom().finite(),
        entries_map(entries).dom().len() == entries.len(),
    decreases entries.len(),
{
    if entries.len() > 0 {
        let front = entries.drop_last();
        assert(distinct_names(front)) by {
            assert forall|a: int, b: int| 0 <= a < b < front.len() implies front[a].name@
                != front[b].name@ by {
                assert(entries[a].name@ != entries[b].name@);
            }
        }
        lemma_entries_map_len(front);
        lemma_entries_map_dom(front, entries.last().name@);
        if entries_map(front).contains_key(entries.last().name@) {
            let i = choose|i: int|
                0 <= i < front.len() && #[trigger] front[i].name@ == entries.last().name@;
            assert(entries[i].name@ == entries[entries.len() - 1].name@);
        }
        assert(entries_map(entries).dom() =~= entries_map(front).dom().insert(
            entries.last().name@,
        ));
    }
}

/// Appending an entry maps its name to its contents and leaves the other
/// names as they were.
pub proof fn lemma_entries_map_push(entries: Seq<TagEntry>, entry: TagEntry)
    ensures
        entries_map(entries.push(entry)) == entries_map(entries).insert(
            entry.name@,
            entry.contents,
        ),
{
    assert(entries.push(entry).drop_last() =~= entries);
}

/// All the tags of one dataset at one point in time: a mapping from tag name
/// to contents, together with the root of the dataset.
///
/// A set is a value. Nothing changes it: every operation that succeeds hands
/// out a new set.
#[derive(Debug)]
pub struct TagSet {
    base: Path,
    entries: Vec<TagEntry>,
}

impl View for TagSet {
    type V = Map<Seq<char>, TagContents>;

    closed spec fn view(&self) -> Map<Seq<char>, TagContents> {
        entries_map(self.entries@)
    }
}

impl Clone for TagSet {
    /// A set with the same root and the same tags.
    fn clone(&self) -> (copy: Self)
        ensures
            copy@ == self@,
            copy.base_text() == self.base_text(),
    {
        proof {
            use_type_invariant(self);
        }
        let mut entries: Vec<TagEntry> = Vec::new();
        let mut i: usize = 0;
        while i < self.entries.len()
            invariant
                i <= self.entries@.len(),
                entries@ == self.entries@.take(i as int),
            decreases self.entries@.len() - i,
        {
            let copy = TagEntry {
                name: self.entries[i].name.clone(),
                contents: self.entries[i].contents,
            };
            assert(self.entries@.take(i + 1) =~= self.entries@.take(i as int).push(copy));
            entries.push(copy);
            i += 1;
        }
        assert(entries@ =~= self.entries@);
        TagSet { base: self.base.clone(), entries }
    }
}

impl TagSet {
    #[verifier::type_invariant]
    spec fn names_are_distinct(&self) -> bool {
        distinct_names(self.entries@)
    }

    /// The text of the path of the dataset's root.
    pub closed spec fn base_text(&self) -> Seq<char> {
        path_text(self.base)
    }

    /// The set without any tag, for the dataset at `base`.
    pub fn new(base: Path) -> (set: TagSet)
        ensures
            set@ == Map::<Seq<char>, TagContents>::empty(),
            set.base_text() == path_text(base),
    {
        TagSet { base, entries: Vec::new() }
    }

    /// The root of the dataset.
    pub fn base(&self) -> (base: &Path)
        ensures
            path_text(*base) == self.base_text(),
    {
        &self.base
    }

    /// The same tags, for the dataset at `base`.
    pub fn with_base(self, base: Path) -> (set: TagSet)
        ensures
            set@ == self@,
            set.base_text() == path_text(base),
    {
        proof {
            use_type_invariant(&self);
        }
        TagSet { base, entries: self.entries }
    }

    /// The number of tags.
    pub fn len(&self) -> (n: usize)
        ensures
            self@.dom().finite(),
            n == self@.dom().len(),
    {
        proof {
            use_type_invariant(self);
            lemma_entries_map_len(self.entries@);
        }
        self.entries.len()
    }

    /// Whether the set holds no tag.
    pub fn is_empty(&self) -> (empty: bool)
        ensures
            empty == (self@ == Map::<Seq<char>, TagContents>::empty()),
    {
        proof {
            use_type_invariant(self);
            lemma_entries_map_len(self.entries@);
            if self.entries@.len() == 0 {
                assert(self@ =~= Map::<Seq<char>, TagContents>::empty());
            }
        }
        self.entries.len() == 0
    }

    /// The index of the entry named `name`, if there is one.
    fn position(&self, name: &str) -> (at: Option<usize>)
        ensures
            match at {
                Some(i) => i < self.entries@.len() && self.entries@[i as int].name@ == name@,
                None => forall|k: int| 0 <= k < self.entries@.len() ==> self.entries@[k].name@ != name@,
            },
    {
        let wanted = String::from_str(name);
        let mut i: usize = 0;
        while i < self.entries.len()
            invariant
                i <= self.entries@.len(),
                wanted@ == name@,
                forall|k: int| 0 <= k < i ==> self.entries@[k].name@ != name@,
            decreases self.entries@.len() - i,
        {
            if self.entries[i].name == wanted {
                return Some(i);
            }
            i += 1;
        }
        None
    }

    /// What the tag `name` records, if the set holds it.
    pub fn get(&self, name: &str) -> (found: Option<TagContents>)
        ensures
            found == if self@.contains_key(name@) {
                Some(self@[name@])
            } else {
                None
            },
    {
        proof {
            use_type_invariant(self);
            lemma_entries_map_dom(self.entries@, name@);
        }
        match self.position(name) {
            Some(i) => {
                proof {
                    lemma_entries_map_value(self.entries@, i as int);
                }
                Some(self.entries[i].contents)
            },
            None => None,
        }
    }

    /// Whether the set holds the tag `name`.
    pub fn contains(&self, name: &str) -> (held: bool)
        ensures
            held == self@.contains_key(name@),
    {
        self.get(name).is_some()
    }

    /// The names of the tags, each once, in no particular order.
    pub fn names(&self) -> (names: Vec<String>)
        ensures
            names@.len() == self@.dom().len(),
            forall|i: int, j: int| 0 <= i < j < names@.len() ==> names@[i]@ != names@[j]@,
            forall|i: int| 0 <= i < names@.len() ==> self@.contains_key(#[trigger] names@[i]@),
            forall|name: Seq<char>| self@.contains_key(name) ==> exists|i: int|
                0 <= i < names@.len() && #[trigger] names@[i]@ == name,
    {
        proof {
            use_type_invariant(self);
            lemma_entries_map_len(self.entries@);
        }
        let mut names: Vec<String> = Vec::new();
        let mut i: usize = 0;
        while i < self.entries.len()
            invariant
                i <= self.entries@.len(),
                names@.len() == i,
                forall|k: int| 0 <= k < i ==> (#[trigger] names@[k])@ == self.entries@[k].name@,
            decreases self.entries@.len() - i,
        {
            names.push(self.entries[i].name.clone());
            i += 1;
        }
        proof {
            assert forall|k: int| 0 <= k < names@.len() implies self@.contains_key(
                #[trigger] names@[k]@,
            ) by {
                lemma_entries_map_dom(self.entries@, names@[k]@);
                assert(self.entries@[k].name@ == names@[k]@);
            }
            assert forall|name: Seq<char>| self@.contains_key(name) implies exists|i: int|
                0 <= i < names@.len() && #[trigger] names@[i]@ == name by {
                lemma_entries_map_dom(self.entries@, name);
                let k = choose|k: int|
                    0 <= k < self.entries@.len() && #[trigger] self.entries@[k].name@ == name;
                assert(names@[k]@ == name);
            }
        }
        names
    }

    /// The set without the tag `name`.
    pub fn without(&self, name: &str) -> (set: TagSet)
        ensures
            set@ == self@.remove(name@),
            set.base_text() == self.base_text(),
    {
        proof {
            use_type_invariant(self);
        }
        let wanted = String::from_str(name);
        let mut kept: Vec<TagEntry> = Vec::new();
        let mut i: usize = 0;
        assert(self.entries@.take(0) =~= Seq::<TagEntry>::empty());
        assert(entries_map(kept@) =~= entries_map(self.entries@.take(0)).remove(name@));
        while i < self.entries.len()
            invariant
                i <= self.entries@.len(),
                wanted@ == name@,
                distinct_names(self.entries@),
                distinct_names(kept@),
                entries_map(kept@) == entries_map(self.entries@.take(i as int)).remove(name@),
            decreases self.entries@.len() - i,
        {
            let ghost seen = self.entries@.take(i as int);
            let ghost entry = self.entries@[i as int];
            proof {
                assert(self.entries@.take(i + 1) =~= seen.push(entry));
                lemma_entries_map_push(seen, entry);
            }
            if self.entries[i].name != wanted {
                let copy = TagEntry {
                    name: self.entries[i].name.clone(),
                    contents: self.entries[i].contents,
                };
                proof {
                    lemma_entries_map_push(kept@, copy);
                    lemma_entries_map_dom(kept@, entry.name@);
                    lemma_entries_map_dom(seen, entry.name@);
                    if entries_map(seen).contains_key(entry.name@) {
                        let k = choose|k: int|
                            0 <= k < seen.len() && #[trigger] seen[k].name@ == entry.name@;
                        assert(self.entries@[k].name@ == self.entries@[i as int].name@);
                    }
                    assert(entries_map(kept@.push(copy)) =~= entries_map(seen.push(entry)).remove(
                        name@,
                    ));
                }
                kept.push(copy);
            } else {
                proof {
                    assert(entries_map(kept@) =~= entries_map(seen.push(entry)).remove(name@));
                }
            }
            i += 1;
        }
        assert(self.entries@.take(i as int) =~= self.entries@);
        TagSet { base: self.base.clone(), entries: kept }
    }

    /// The set in which the tag `name` records `contents`, whatever it
    /// recorded before.
    pub fn with(&self, name: &str, contents: TagContents) -> (set: TagSet)
        ensures
            set@ == self@.insert(name@, contents),
            set.base_text() == self.base_text(),
    {
        let rest = self.without(name);
        proof {
            use_type_invariant(&rest);
        }
        let TagSet { base, entries } = rest;
        let mut entries = entries;
        let entry = TagEntry { name: String::from_str(name), contents };
        proof {
            lemma_entries_map_push(entries@, entry);
            lemma_entries_map_dom(entries@, name@);
            assert(self@.remove(name@).insert(name@, contents) =~= self@.insert(name@, contents));
        }
        entries.push(entry);
        TagSet { base, entries }
    }
}

} // verus!
