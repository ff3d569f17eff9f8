//! The index of a package: for each file of the package, where its bytes
//! are kept in the store.

use vstd::prelude::*;
use vstd::string::*;

verus! {

/// One line of an index: the path of a file within its package, and the
/// store path of the file's bytes.
#[derive(Clone, Debug, PartialEq, Eq)]
pub struct IndexEntry {
    pub key: String,
    pub path: String,
}

/// The lines of an index as mathematical values.
pub open spec fn entry_pairs(entries: Seq<IndexEntry>) -> Seq<(Seq<char>, Seq<char>)> {
    entries.map_values(|e: IndexEntry| (e.key@, e.path@))
}

/// No key stands on two lines.
pub open spec fn keys_unique(pairs: Seq<(Seq<char>, Seq<char>)>) -> bool {
    forall|i: int, j: int| 0 <= i < j < pairs.len() ==> (#[trigger] pairs[i]).0 != (
    #[trigger] pairs[j]).0
}

/// Some line holds `key`.
pub open spec fn has_key(pairs: Seq<(Seq<char>, Seq<char>)>, key: Seq<char>) -> bool {
    exists|i: int| 0 <= i < pairs.len() && (#[trigger] pairs[i]).0 == key
}

/// A line that holds `key`, where there is one.
pub open spec fn line_of(pairs: Seq<(Seq<char>, Seq<char>)>, key: Seq<char>) -> int {
    choose|i: int| 0 <= i < pairs.len() && (#[trigger] pairs[i]).0 == key
}

/// The lines after `key` has been set to `path`: the line that held `key`
/// now holds the new path, or a new line stands at the end.
pub open spec fn pairs_insert(
    pairs: Seq<(Seq<char>, Seq<char>)>,
    key: Seq<char>,
    path: Seq<char>,
) -> Seq<(Seq<char>, Seq<char>)> {
    if has_key(pairs, key) {
        pairs.update(line_of(pairs, key), (key, path))
    } else {
        pairs.push((key, path))
    }
}

/// The mapping that the lines stand for.
pub open spec fn pairs_map(pairs: Seq<(Seq<char>, Seq<char>)>) -> Map<Seq<char>, Seq<char>> {
    Map::new(|key: Seq<char>| has_key(pairs, key), |key: Seq<char>| pairs[line_of(pairs, key)].1)
}

/// Setting a key keeps the keys unique, and changes the mapping at that key
/// alone.
pub proof fn lemma_pairs_insert(
    pairs: Seq<(Seq<char>, Seq<char>)>,
    key: Seq<char>,
    path: Seq<char>,
)
    requires
        keys_unique(pairs),
    ensures
        keys_unique(pairs_insert(pairs, key, path)),
        pairs_map(pairs_insert(pairs, key, path)) == pairs_map(pairs).insert(key, path),
{
    let after = pairs_insert(pairs, key, path);
    let at = if has_key(pairs, key) {
        line_of(pairs, key)
    } else {
        pairs.len() as int
    };
    assert(after[at] == (key, path));
    assert forall|i: int| 0 <= i < after.len() && i != at implies #[trigger] after[i]
        == pairs[i] && after[i].0 != key by {}
    assert(has_key(after, key));
    assert forall|k: Seq<char>| k != key implies has_key(after, k) == has_key(pairs, k) by {
        if has_key(after, k) {
            let i = line_of(after, k);
            assert(pairs[i].0 == k);
        }
        if has_key(pairs, k) {
            let i = line_of(pairs, k);
            assert(after[i].0 == k);
        }
    }
    assert forall|k: Seq<char>| has_key(after, k) implies #[trigger] pairs_map(after)[k]
        == pairs_map(pairs).insert(key, path)[k] by {
        let i = line_of(after, k);
        if k == key {
            assert(i == at);
        } else {
            let j = line_of(pairs, k);
            assert(after[j].0 == k);
            assert(i == j);
        }
    }
    assert(pairs_map(after) =~= pairs_map(pairs).insert(key, path));
}

/// The text of the index file for the given lines: one JSON object with a
/// member for each line, if the lines can be written so.
pub uninterp spec fn index_json(lines: Seq<(Seq<char>, Seq<char>)>) -> Option<Seq<char>>;

/// The index of one package. In a well-formed index each key occurs once;
/// setting a key again replaces what it stood for.
#[derive(Clone, Debug, PartialEq, Eq)]
pub struct PackageIndex {
    entries: Vec<IndexEntry>,
}

impl View for PackageIndex {
    type V = Map<Seq<char>, Seq<char>>;

    open spec fn view(&self) -> Map<Seq<char>, Seq<char>> {
        pairs_map(self.pairs())
    }
}

impl PackageIndex {
    /// The index is well formed: no key has two lines.
    pub open spec fn wf(&self) -> bool {
        keys_unique(self.pairs())
    }

    /// The lines of the index, in the order in which their keys were first
    /// set.
    pub closed spec fn pairs(&self) -> Seq<(Seq<char>, Seq<char>)> {
        entry_pairs(self.entries@)
    }

    /// An index without lines.
    pub fn new() -> (index: PackageIndex)
        ensures
            index.wf(),
            index.pairs() == Seq::<(Seq<char>, Seq<char>)>::empty(),
            index@ == Map::<Seq<char>, Seq<char>>::empty(),
    {
        let index = PackageIndex { entries: Vec::new() };
        assert(index.pairs() =~= Seq::<(Seq<char>, Seq<char>)>::empty());
        assert(index@ =~= Map::<Seq<char>, Seq<char>>::empty());
        index
    }

    /// The number of lines.
    pub fn len(&self) -> (n: usize)
        ensures
            n == self.pairs().len(),
    {
        self.entries.len()
    }

    /// The line at position `i`.
    pub fn entry(&self, i: usize) -> (line: &IndexEntry)
        requires
            i < self.pairs().len(),
        ensures
            (line.key@, line.path@) == self.pairs()[i as int],
    {
        &self.entries[i]
    }

    /// The store path that `key` stands for.
    pub fn get(&self, key: &str) -> (path: Option<&String>)
        requires
            self.wf(),
        ensures
            match path {
                Some(p) => self@.contains_key(key@) && self@[key@] == p@,
                None => !self@.contains_key(key@),
            },
    {
        let wanted: String = key.to_owned();
        let mut i: usize = 0;
        while i < self.entries.len()
            invariant
                i <= self.entries@.len(),
                self.wf(),
                wanted@ == key@,
                forall|j: int| 0 <= j < i ==> (#[trigger] self.pairs()[j]).0 != key@,
            decreases self.entries@.len() - i,
        {
            if self.entries[i].key == wanted {
                proof {
                    let pairs = self.pairs();
                    assert(pairs[i as int].0 == key@);
                    assert(line_of(pairs, key@) == i);
                }
                return Some(&self.entries[i].path);
            }
            i += 1;
        }
        None
    }

    /// Sets `key` to `path`. A key that is set again keeps its line and
    /// stands for the new path.
    pub fn insert(&mut self, key: String, path: String)
        requires
            old(self).wf(),
        ensures
            final(self).wf(),
            final(self).pairs() == pairs_insert(old(self).pairs(), key@, path@),
            final(self)@ == old(self)@.insert(key@, path@),
    {
        let ghost before = self.pairs();
        proof {
            lemma_pairs_insert(before, key@, path@);
        }
        let mut i: usize = 0;
        while i < self.entries.len()
            invariant
                i <= self.entries@.len(),
                self.pairs() == before,
                old(self).pairs() == before,
                keys_unique(before),
                keys_unique(pairs_insert(before, key@, path@)),
                pairs_map(pairs_insert(before, key@, path@)) == pairs_map(before).insert(
                    key@,
                    path@,
                ),
                forall|j: int| 0 <= j < i ==> (#[trigger] before[j]).0 != key@,
            decreases self.entries@.len() - i,
        {
            if self.entries[i].key == key {
                proof {
                    assert(before[i as int].0 == key@);
                    assert(line_of(before, key@) == i);
                }
                self.entries.set(i, IndexEntry { key, path });
                assert(self.pairs() =~= pairs_insert(before, key@, path@));
                return ;
            }
            i += 1;
        }
        self.entries.push(IndexEntry { key, path });
        assert(self.pairs() =~= pairs_insert(before, key@, path@));
    }

    /// Gathers the lines into a `serde_json::Map` and writes it out with
    /// `serde_json::to_string`. Trusted: the text is the named one, and
    /// there is none exactly where `serde_json` reports a failure.
    #[verifier::external_body]
    pub(crate) fn to_json(&self) -> (json: Option<String>)
        ensures
            match json {
                Some(text) => index_json(self.pairs()) == Some(text@),
                None => index_json(self.pairs()) is None,
            },
    {
        let object: serde_json::Map<String, serde_json::Value> = self.entries.iter().map(
            |e| (e.key.clone(), serde_json::Value::String(e.path.clone())),
        ).collect();
        serde_json::to_string(&object).ok()
    }
}

} // verus!
