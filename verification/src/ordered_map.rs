//! A map from names to values that keeps the order in which names were
//! first inserted, as the maps of an OpenAPI document do.

use vstd::prelude::*;

verus! {

/// The position of `key` among the names of `entries`, if it is there.
pub open spec fn position_of<V>(entries: Seq<(Seq<char>, V)>, key: Seq<char>) -> Option<int> {
    if exists|i: int| 0 <= i < entries.len() && entries[i].0 == key {
        Some(choose|i: int| 0 <= i < entries.len() && entries[i].0 == key)
    } else {
        None
    }
}

/// The entries after inserting `(key, value)`: the value of a present name is
/// replaced in place, a new name goes last.
pub open spec fn inserted<V>(entries: Seq<(Seq<char>, V)>, key: Seq<char>, value: V) -> Seq<(Seq<char>, V)> {
    match position_of(entries, key) {
        Some(i) => entries.update(i, (key, value)),
        None => entries.push((key, value)),
    }
}

/// The entries after inserting each of `more` in turn.
pub open spec fn extended<V>(entries: Seq<(Seq<char>, V)>, more: Seq<(Seq<char>, V)>) -> Seq<(Seq<char>, V)>
    decreases more.len(),
{
    if more.len() == 0 {
        entries
    } else {
        let before = extended(entries, more.drop_last());
        inserted(before, more.last().0, more.last().1)
    }
}

/// The names that occur in `entries`.
pub open spec fn names_of<V>(entries: Seq<(Seq<char>, V)>) -> Set<Seq<char>> {
    Set::new(|k: Seq<char>| exists|i: int| 0 <= i < entries.len() && entries[i].0 == k)
}

proof fn lemma_inserted_names<V>(entries: Seq<(Seq<char>, V)>, key: Seq<char>, value: V)
    ensures
        names_of(inserted(entries, key, value)) == names_of(entries).insert(key),
        inserted(entries, key, value).len() >= entries.len(),
        forall|i: int| 0 <= i < entries.len() ==> (#[trigger] inserted(entries, key, value)[i]).0 == entries[i].0,
{
    let r = inserted(entries, key, value);
    match position_of(entries, key) {
        Some(p) => {
            assert(0 <= p < entries.len() && entries[p].0 == key);
            assert(r == entries.update(p, (key, value)));
            assert forall|i: int| 0 <= i < entries.len() implies (#[trigger] r[i]).0 == entries[i].0 by {}
            assert forall|k: Seq<char>| names_of(r).contains(k) <==> names_of(entries).insert(key).contains(k) by {
                if names_of(r).contains(k) {
                    let i = choose|i: int| 0 <= i < r.len() && r[i].0 == k;
                    assert(entries[i].0 == k);
                }
                if names_of(entries).contains(k) {
                    let i = choose|i: int| 0 <= i < entries.len() && entries[i].0 == k;
                    assert(r[i].0 == k);
                }
                if k == key {
                    assert(r[p].0 == k);
                }
            }
            assert(names_of(r) =~= names_of(entries).insert(key));
        },
        None => {
            assert(r == entries.push((key, value)));
            assert forall|i: int| 0 <= i < entries.len() implies (#[trigger] r[i]).0 == entries[i].0 by {}
            assert forall|k: Seq<char>| names_of(r).contains(k) <==> names_of(entries).insert(key).contains(k) by {
                if names_of(r).contains(k) {
                    let i = choose|i: int| 0 <= i < r.len() && r[i].0 == k;
                    if i < entries.len() {
                        assert(entries[i].0 == k);
                    }
                }
                if names_of(entries).contains(k) {
                    let i = choose|i: int| 0 <= i < entries.len() && entries[i].0 == k;
                    assert(r[i].0 == k);
                }
                if k == key {
                    assert(r[entries.len() as int].0 == k);
                }
            }
            assert(names_of(r) =~= names_of(entries).insert(key));
        },
    }
}

/// Extending a map keeps each of its names where it stood, and afterwards
/// it holds exactly the names it held before and those of what was added.
pub proof fn lemma_extended_names<V>(entries: Seq<(Seq<char>, V)>, more: Seq<(Seq<char>, V)>)
    ensures
        names_of(extended(entries, more)) == names_of(entries).union(names_of(more)),
        extended(entries, more).len() >= entries.len(),
        forall|i: int| 0 <= i < entries.len() ==> (#[trigger] extended(entries, more)[i]).0 == entries[i].0,
    decreases more.len(),
{
    if more.len() == 0 {
        assert forall|k: Seq<char>| !names_of(more).contains(k) by {}
        assert(names_of(entries).union(names_of(more)) =~= names_of(entries));
    } else {
        let front = more.drop_last();
        let before = extended(entries, front);
        lemma_extended_names(entries, front);
        lemma_inserted_names(before, more.last().0, more.last().1);
        let r = extended(entries, more);
        assert(r == inserted(before, more.last().0, more.last().1));
        assert forall|i: int| 0 <= i < entries.len() implies (#[trigger] r[i]).0 == entries[i].0 by {
            assert(r[i].0 == before[i].0);
        }
        assert forall|k: Seq<char>| names_of(more).contains(k) <==> names_of(front).insert(more.last().0).contains(k) by {
            if names_of(more).contains(k) {
                let i = choose|i: int| 0 <= i < more.len() && more[i].0 == k;
                if i < front.len() {
                    assert(front[i].0 == k);
                }
            }
            if names_of(front).contains(k) {
                let i = choose|i: int| 0 <= i < front.len() && front[i].0 == k;
                assert(more[i].0 == k);
            }
            if k == more.last().0 {
                assert(more[more.len() - 1].0 == k);
            }
        }
        assert(names_of(more) =~= names_of(front).insert(more.last().0));
        assert(names_of(r) =~= names_of(entries).union(names_of(more)));
    }
}

/// Extending a map by entries whose names are distinct leaves each of those
/// entries in it, name and value: what is added wins over what was there.
pub proof fn lemma_extended_keeps_added<V>(entries: Seq<(Seq<char>, V)>, more: Seq<(Seq<char>, V)>)
    requires
        unique_names(more),
    ensures
        forall|j: int| 0 <= j < more.len() ==> exists|i: int|
            0 <= i < extended(entries, more).len() && extended(entries, more)[i] == #[trigger] more[j],
    decreases more.len(),
{
    if more.len() > 0 {
        let front = more.drop_last();
        let last = more.last();
        let before = extended(entries, front);
        assert(unique_names(front)) by {
            assert forall|a: int, b: int| 0 <= a < b < front.len() implies front[a].0 != front[b].0 by {
                assert(front[a] == more[a] && front[b] == more[b]);
            }
        }
        lemma_extended_keeps_added(entries, front);
        let r = extended(entries, more);
        assert(r == inserted(before, last.0, last.1));
        assert forall|j: int| 0 <= j < more.len() implies exists|i: int|
            0 <= i < r.len() && r[i] == #[trigger] more[j] by {
            if j == more.len() - 1 {
                match position_of(before, last.0) {
                    Some(p) => {
                        assert(r[p] == last);
                    },
                    None => {
                        assert(r[before.len() as int] == last);
                    },
                }
            } else {
                assert(more[j] == front[j]);
                let i = choose|i: int| 0 <= i < before.len() && before[i] == #[trigger] front[j];
                assert(more[j].0 != last.0);
                match position_of(before, last.0) {
                    Some(p) => {
                        assert(before[p].0 == last.0);
                        assert(r[i] == before[i]);
                    },
                    None => {
                        assert(r[i] == before[i]);
                    },
                }
            }
        }
    }
}

/// Whether no name occurs twice.
pub open spec fn unique_names<V>(entries: Seq<(Seq<char>, V)>) -> bool {
    forall|i: int, j: int| 0 <= i < j < entries.len() ==> entries[i].0 != entries[j].0
}

/// Names with values, in the order the names were first inserted.
pub struct OrderedMap<V> {
    entries: Vec<(String, V)>,
}

impl<V> OrderedMap<V> {
    /// The entries, as names and values.
    pub closed spec fn entries(&self) -> Seq<(Seq<char>, V)> {
        self.entries@.map_values(|e: (String, V)| (e.0@, e.1))
    }

    pub open spec fn wf(&self) -> bool {
        unique_names(self.entries())
    }

    pub fn new() -> (m: Self)
        ensures
            m.wf(),
            m.entries() == Seq::<(Seq<char>, V)>::empty(),
    {
        let m = OrderedMap { entries: Vec::new() };
        assert(m.entries() =~= Seq::<(Seq<char>, V)>::empty());
        m
    }

    pub fn len(&self) -> (n: usize)
        ensures
            n == self.entries().len(),
    {
        self.entries.len()
    }

    /// Inserts a value under a name: a present name keeps its place and gets
    /// the new value, a new name goes last.
    pub fn insert(&mut self, key: String, value: V)
        requires
            old(self).wf(),
        ensures
            final(self).wf(),
            final(self).entries() == inserted(old(self).entries(), key@, value),
    {
        let ghost k = key@;
        let mut i: usize = 0;
        while i < self.entries.len()
            invariant
                i <= self.entries.len(),
                k == key@,
                old(self).wf(),
                self.entries() == old(self).entries(),
                forall|j: int| 0 <= j < i ==> self.entries()[j].0 != k,
            decreases self.entries.len() - i,
        {
            assert(self.entries()[i as int] == (self.entries@[i as int].0@, self.entries@[i as int].1));
            if self.entries[i].0 == key {
                assert(self.entries()[i as int].0 == k);
                let ghost pos = position_of(old(self).entries(), k);
                assert(pos == Some(i as int)) by {
                    let c = choose|c: int| 0 <= c < old(self).entries().len() && old(self).entries()[c].0 == k;
                    if c != i as int {
                        if c < i {
                            assert(self.entries()[c].0 != k);
                        } else {
                            assert(old(self).entries()[i as int].0 == old(self).entries()[c].0);
                        }
                    }
                }
                self.entries.set(i, (key, value));
                assert(self.entries() =~= old(self).entries().update(i as int, (k, value)));
                assert forall|a: int, b: int| 0 <= a < b < self.entries().len() implies self.entries()[a].0 != self.entries()[b].0 by {
                    assert(self.entries()[a].0 == old(self).entries()[a].0);
                    assert(self.entries()[b].0 == old(self).entries()[b].0);
                }
                return;
            }
            i = i + 1;
        }
        assert(position_of(old(self).entries(), k) is None);
        self.entries.push((key, value));
        assert(self.entries() =~= old(self).entries().push((k, value)));
    }

    /// Inserts each entry of `other` in turn.
    pub fn extend(&mut self, other: OrderedMap<V>)
        requires
            old(self).wf(),
        ensures
            final(self).wf(),
            final(self).entries() == extended(old(self).entries(), other.entries()),
    {
        let ghost more = other.entries();
        let mut rest = other.entries;
        let n = rest.len();
        let mut i: usize = 0;
        while i < n
            invariant
                n == more.len(),
                i <= n,
                rest@.len() == n - i,
                forall|j: int| 0 <= j < n - i ==> (#[trigger] rest@[j].0)@ == more[i + j].0 && rest@[j].1 == more[i + j].1,
                self.wf(),
                self.entries() == extended(old(self).entries(), more.take(i as int)),
            decreases n - i,
        {
            let (k, v) = rest.remove(0);
            assert(more.take(i + 1).drop_last() =~= more.take(i as int));
            assert(more.take(i + 1).last() == more[i as int]);
            self.insert(k, v);
            i = i + 1;
        }
        assert(more.take(n as int) =~= more);
    }

    /// The names, in order.
    pub fn names(&self) -> (v: Vec<String>)
        ensures
            v@.map_values(|s: String| s@) == self.entries().map_values(|e: (Seq<char>, V)| e.0),
    {
        let mut v: Vec<String> = Vec::new();
        let mut i: usize = 0;
        while i < self.entries.len()
            invariant
                i <= self.entries.len(),
                v@.len() == i,
                forall|k: int| 0 <= k < i ==> (#[trigger] v@[k])@ == self.entries()[k].0,
            decreases self.entries.len() - i,
        {
            assert(self.entries()[i as int] == (self.entries@[i as int].0@, self.entries@[i as int].1));
            let name = self.entries[i].0.clone();
            assert(name@ == self.entries@[i as int].0@);
            v.push(name);
            i = i + 1;
        }
        assert(v@.map_values(|s: String| s@) =~= self.entries().map_values(|e: (Seq<char>, V)| e.0));
        v
    }

    /// The entries, in order.
    pub fn into_entries(self) -> (v: Vec<(String, V)>)
        ensures
            v@.map_values(|e: (String, V)| (e.0@, e.1)) == self.entries(),
    {
        self.entries
    }
}

} // verus!
