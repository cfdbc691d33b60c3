use vstd::prelude::*;

use crate::path::{Path, PathView};

verus! {

/// A map from paths to values. It keeps its entries in the order in which they were inserted,
/// and no path occurs twice.
#[derive(Debug)]
pub struct PathMap<V> {
    entries: Vec<(Path, V)>,
}

/// The position of `path` in `entries`.
spec fn position<V>(entries: Seq<(Path, V)>, path: PathView) -> int {
    choose|i: int| 0 <= i < entries.len() && (#[trigger] entries[i]).0@ == path
}

/// Whether `path` has an entry.
spec fn listed<V>(entries: Seq<(Path, V)>, path: PathView) -> bool {
    exists|i: int| 0 <= i < entries.len() && (#[trigger] entries[i]).0@ == path
}

/// The entries as a map.
spec fn as_map<V>(entries: Seq<(Path, V)>) -> Map<PathView, V> {
    Map::new(
        |path: PathView| listed(entries, path),
        |path: PathView| entries[position(entries, path)].1,
    )
}

/// No path occurs twice.
spec fn distinct<V>(entries: Seq<(Path, V)>) -> bool {
    forall|i: int, j: int|
        0 <= i < j < entries.len() ==> (#[trigger] entries[i]).0@ != (#[trigger] entries[j]).0@
}

proof fn lemma_entry<V>(entries: Seq<(Path, V)>, i: int)
    requires
        distinct(entries),
        0 <= i < entries.len(),
    ensures
        as_map(entries).dom().contains(entries[i].0@),
        as_map(entries)[entries[i].0@] == entries[i].1,
{
    let j = position(entries, entries[i].0@);
    assert(listed(entries, entries[i].0@));
    assert(0 <= j < entries.len() && entries[j].0@ == entries[i].0@);
    assert(i == j) by {
        if i < j {
            assert(entries[i].0@ != entries[j].0@);
        }
        if j < i {
            assert(entries[j].0@ != entries[i].0@);
        }
    }
}

proof fn lemma_push<V>(entries: Seq<(Path, V)>, entry: (Path, V))
    requires
        distinct(entries),
        !as_map(entries).dom().contains(entry.0@),
    ensures
        distinct(entries.push(entry)),
        as_map(entries.push(entry)) == as_map(entries).insert(entry.0@, entry.1),
{
    let after = entries.push(entry);
    assert forall|i: int, j: int| 0 <= i < j < after.len() implies (#[trigger] after[i]).0@ != (
    #[trigger] after[j]).0@ by {
        if j == entries.len() {
            lemma_entry(entries, i);
        }
    }
    let m = as_map(entries).insert(entry.0@, entry.1);
    assert forall|path: PathView| as_map(after).dom().contains(path) == m.dom().contains(
        path,
    ) by {
        if listed(entries, path) {
            let i = position(entries, path);
            assert(after[i].0@ == path);
        }
        assert(after[entries.len() as int].0@ == entry.0@);
        if listed(after, path) {
            let i = position(after, path);
            if i < entries.len() {
                assert(entries[i].0@ == path);
            }
        }
    }
    assert forall|path: PathView| as_map(after).dom().contains(path) implies as_map(after)[path]
        == m[path] by {
        let i = position(after, path);
        if i < entries.len() {
            lemma_entry(entries, i);
            assert(path != entry.0@);
        }
    }
    assert(as_map(after) =~= m);
}

proof fn lemma_remove<V>(entries: Seq<(Path, V)>, at: int)
    requires
        distinct(entries),
        0 <= at < entries.len(),
    ensures
        distinct(entries.remove(at)),
        as_map(entries.remove(at)) == as_map(entries).remove(entries[at].0@),
{
    let after = entries.remove(at);
    let path_out = entries[at].0@;
    assert forall|i: int, j: int| 0 <= i < j < after.len() implies (#[trigger] after[i]).0@ != (
    #[trigger] after[j]).0@ by {
        let i0 = if i < at { i } else { i + 1 };
        let j0 = if j < at { j } else { j + 1 };
        assert(entries[i0].0@ != entries[j0].0@);
    }
    let m = as_map(entries).remove(path_out);
    assert forall|path: PathView| as_map(after).dom().contains(path) == m.dom().contains(
        path,
    ) by {
        if listed(after, path) {
            let i = position(after, path);
            let i0 = if i < at { i } else { i + 1 };
            lemma_entry(entries, i0);
            if i0 < at {
                assert(entries[i0].0@ != entries[at].0@);
            } else {
                assert(entries[at].0@ != entries[i0].0@);
            }
        }
        if listed(entries, path) && path != path_out {
            let i = position(entries, path);
            let i1 = if i < at { i } else { i - 1 };
            assert(after[i1].0@ == path);
        }
    }
    assert forall|path: PathView| as_map(after).dom().contains(path) implies as_map(after)[path]
        == m[path] by {
        let i = position(after, path);
        let i0 = if i < at { i } else { i + 1 };
        lemma_entry(entries, i0);
        assert(after[i] == entries[i0]);
    }
    assert(as_map(after) =~= m);
}

impl<V> View for PathMap<V> {
    type V = Map<PathView, V>;

    closed spec fn view(&self) -> Map<PathView, V> {
        as_map(self.entries@)
    }
}

impl<V> PathMap<V> {
    #[verifier::type_invariant]
    spec fn well_formed(self) -> bool {
        distinct(self.entries@)
    }

    /// The paths of the map, in the order in which they were inserted.
    pub closed spec fn keys(self) -> Seq<PathView> {
        Seq::new(self.entries@.len(), |i: int| self.entries@[i].0@)
    }

    /// The paths of the map are those that have a value.
    pub proof fn lemma_keys(self, path: PathView)
        ensures
            self@.dom().contains(path) <==> self.keys().contains(path),
    {
        if listed(self.entries@, path) {
            let i = position(self.entries@, path);
            assert(self.keys()[i] == path);
        }
        if self.keys().contains(path) {
            let i = choose|i: int| 0 <= i < self.keys().len() && self.keys()[i] == path;
            assert(self.entries@[i].0@ == path);
        }
    }

    /// A map has finitely many paths.
    pub proof fn lemma_finite(self)
        ensures
            self@.dom().finite(),
    {
        let paths = self.keys().to_set();
        vstd::seq_lib::seq_to_set_is_finite(self.keys());
        assert(self@.dom().subset_of(paths)) by {
            assert forall|path: PathView| self@.dom().contains(path) implies paths.contains(
                path,
            ) by {
                self.lemma_keys(path);
            }
        }
        vstd::set_lib::lemma_len_subset(self@.dom(), paths);
    }

    proof fn lemma_distinct(self)
        requires
            distinct(self.entries@),
        ensures
            self.keys().no_duplicates(),
            self@.dom().len() == self.keys().len(),
    {
        let keys = self.keys();
        assert forall|i: int, j: int| 0 <= i < keys.len() && 0 <= j < keys.len() && i != j implies keys[i]
            != keys[j] by {
            if i < j {
                assert(self.entries@[i].0@ != self.entries@[j].0@);
            } else {
                assert(self.entries@[j].0@ != self.entries@[i].0@);
            }
        }
        keys.unique_seq_to_set();
        assert forall|path: PathView| self@.dom().contains(path) == keys.to_set().contains(path) by {
            self.lemma_keys(path);
        }
        assert(self@.dom() =~= keys.to_set());
    }

    /// The empty map.
    pub fn new() -> (map: PathMap<V>)
        ensures
            map@ == Map::<PathView, V>::empty(),
            map.keys() == Seq::<PathView>::empty(),
    {
        let map = PathMap { entries: Vec::new() };
        assert(map@ =~= Map::<PathView, V>::empty());
        map
    }

    /// How many paths the map holds.
    pub fn len(&self) -> (n: usize)
        ensures
            n == self@.dom().len(),
            n == self.keys().len(),
            self.keys().no_duplicates(),
    {
        proof {
            use_type_invariant(&*self);
            self.lemma_distinct();
        }
        self.entries.len()
    }

    /// The path at position `i` of the insertion order.
    pub fn key(&self, i: usize) -> (path: &Path)
        requires
            i < self.keys().len(),
        ensures
            path@ == self.keys()[i as int],
    {
        &self.entries[i].0
    }

    fn find(&self, path: &Path) -> (at: Option<usize>)
        ensures
            at is Some <==> self@.dom().contains(path@),
            at matches Some(i) ==> {
                &&& i < self.entries@.len()
                &&& self.entries@[i as int].0@ == path@
                &&& self@[path@] == self.entries@[i as int].1
            },
    {
        proof {
            use_type_invariant(&*self);
        }
        let mut i: usize = 0;
        while i < self.entries.len()
            invariant
                i <= self.entries@.len(),
                distinct(self.entries@),
                forall|j: int| 0 <= j < i ==> (#[trigger] self.entries@[j]).0@ != path@,
            decreases self.entries@.len() - i,
        {
            if self.entries[i].0.eq(path) {
                proof {
                    lemma_entry(self.entries@, i as int);
                }
                return Some(i);
            }
            i = i + 1;
        }
        None
    }

    /// Whether the map has a value for `path`.
    pub fn contains_key(&self, path: &Path) -> (r: bool)
        ensures
            r == self@.dom().contains(path@),
    {
        self.find(path).is_some()
    }

    /// The value for `path`.
    pub fn get(&self, path: &Path) -> (value: Option<&V>)
        ensures
            value is Some <==> self@.dom().contains(path@),
            value matches Some(v) ==> *v == self@[path@],
    {
        match self.find(path) {
            Some(i) => Some(&self.entries[i].1),
            None => None,
        }
    }

    /// Gives `path` the value `value` where it has none yet, as the last of the paths. Otherwise
    /// the map stays as it is and the result is `false`.
    pub fn insert_vacant(&mut self, path: Path, value: V) -> (vacant: bool)
        ensures
            vacant == !old(self)@.dom().contains(path@),
            final(self)@ == if vacant {
                old(self)@.insert(path@, value)
            } else {
                old(self)@
            },
            final(self).keys() == if vacant {
                old(self).keys().push(path@)
            } else {
                old(self).keys()
            },
    {
        if self.contains_key(&path) {
            return false;
        }
        proof {
            use_type_invariant(&*self);
        }
        let mut entries: Vec<(Path, V)> = Vec::new();
        std::mem::swap(&mut entries, &mut self.entries);
        proof {
            lemma_push(entries@, (path, value));
        }
        entries.push((path, value));
        self.entries = entries;
        assert(self.keys() =~= old(self).keys().push(path@));
        true
    }

    /// Takes the entry of `path` out of the map. The other paths stay in their order.
    pub fn remove(&mut self, path: &Path) -> (value: Option<V>)
        ensures
            value is Some <==> old(self)@.dom().contains(path@),
            value matches Some(v) ==> v == old(self)@[path@],
            final(self)@ == old(self)@.remove(path@),
            final(self).keys() == old(self).keys().remove_value(path@),
    {
        proof {
            self.keys().index_of_first_ensures(path@);
            self.lemma_keys(path@);
        }
        match self.find(path) {
            Some(i) => {
                proof {
                    use_type_invariant(&*self);
                    self.lemma_distinct();
                    assert(self.keys()[i as int] == path@);
                }
                let mut entries: Vec<(Path, V)> = Vec::new();
                std::mem::swap(&mut entries, &mut self.entries);
                proof {
                    lemma_remove(entries@, i as int);
                }
                let (_, value) = entries.remove(i);
                self.entries = entries;
                assert(self.keys() =~= old(self).keys().remove(i as int));
                Some(value)
            },
            None => {
                assert(self@.remove(path@) =~= self@);
                None
            },
        }
    }
}

} // verus!
