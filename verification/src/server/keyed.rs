//! Lists keyed by URL strings, seen as maps from the URL to a value.

use vstd::prelude::*;

use crate::text_utils::sorting::{keys_increasing, keys_of, keys_unique, sort_by_key};
use crate::text_utils::strings::str_equal;

verus! {

/// Whether some entry of `entries` has the key `key`.
pub open spec fn has_key<V>(entries: Seq<(String, V)>, key: Seq<char>) -> bool {
    exists|i: int| 0 <= i < entries.len() && #[trigger] entries[i].0@ == key
}

/// An index of an entry with the key `key`, when there is one.
pub open spec fn key_index<V>(entries: Seq<(String, V)>, key: Seq<char>) -> int {
    choose|i: int| 0 <= i < entries.len() && #[trigger] entries[i].0@ == key
}

/// The map that a list with distinct keys stands for.
pub open spec fn map_of<V>(entries: Seq<(String, V)>) -> Map<Seq<char>, V> {
    Map::new(
        |key: Seq<char>| has_key(entries, key),
        |key: Seq<char>| entries[key_index(entries, key)].1,
    )
}

/// The entry at `i` is what the map holds for its key.
pub proof fn lemma_map_of_index<V>(entries: Seq<(String, V)>, i: int)
    requires
        keys_unique(keys_of(entries)),
        0 <= i < entries.len(),
    ensures
        map_of(entries).contains_key(entries[i].0@),
        map_of(entries)[entries[i].0@] == entries[i].1,
{
    let key = entries[i].0@;
    assert(has_key(entries, key));
    let j = key_index(entries, key);
    assert(keys_of(entries)[i] == key);
    assert(keys_of(entries)[j] == key);
    assert(j == i);
    assert(map_of(entries).dom().contains(key));
    assert(map_of(entries)[key] == entries[j].1);
}

/// Appending an entry with a new key adds it to the map.
pub proof fn lemma_map_of_push<V>(entries: Seq<(String, V)>, entry: (String, V))
    requires
        keys_unique(keys_of(entries)),
        !has_key(entries, entry.0@),
    ensures
        keys_unique(keys_of(entries.push(entry))),
        map_of(entries.push(entry)) == map_of(entries).insert(entry.0@, entry.1),
{
    let after = entries.push(entry);
    assert forall|i: int, j: int|
        0 <= i < keys_of(after).len() && 0 <= j < keys_of(after).len() && i != j implies keys_of(
        after,
    )[i] != keys_of(after)[j] by {
        assert(keys_of(after)[i] == after[i].0@);
        assert(keys_of(after)[j] == after[j].0@);
        if i < entries.len() && j < entries.len() {
            assert(keys_of(entries)[i] == entries[i].0@);
            assert(keys_of(entries)[j] == entries[j].0@);
        }
    }
    assert forall|key: Seq<char>| #[trigger] has_key(after, key) == (has_key(entries, key) || key
        == entry.0@) by {
        if has_key(after, key) {
            let i = choose|i: int| 0 <= i < after.len() && #[trigger] after[i].0@ == key;
            if i < entries.len() {
                assert(entries[i].0@ == key);
            }
        }
        if has_key(entries, key) {
            let i = choose|i: int| 0 <= i < entries.len() && #[trigger] entries[i].0@ == key;
            assert(after[i].0@ == key);
        }
        if key == entry.0@ {
            assert(after[entries.len() as int].0@ == key);
        }
    }
    assert forall|key: Seq<char>| #[trigger] map_of(after).contains_key(key) implies map_of(after)[key]
        == map_of(entries).insert(entry.0@, entry.1)[key] by {
        let i = choose|i: int| 0 <= i < after.len() && #[trigger] after[i].0@ == key;
        lemma_map_of_index(after, i);
        if i < entries.len() {
            lemma_map_of_index(entries, i);
        }
    }
    assert(map_of(after) =~= map_of(entries).insert(entry.0@, entry.1));
}

/// Replacing the entry at `i` by one with the same key replaces its value.
pub proof fn lemma_map_of_update<V>(entries: Seq<(String, V)>, i: int, entry: (String, V))
    requires
        keys_unique(keys_of(entries)),
        0 <= i < entries.len(),
        entry.0@ == entries[i].0@,
    ensures
        keys_unique(keys_of(entries.update(i, entry))),
        map_of(entries.update(i, entry)) == map_of(entries).insert(entry.0@, entry.1),
{
    let after = entries.update(i, entry);
    assert forall|a: int, b: int|
        0 <= a < keys_of(after).len() && 0 <= b < keys_of(after).len() && a != b implies keys_of(
        after,
    )[a] != keys_of(after)[b] by {
        assert(keys_of(after)[a] == after[a].0@);
        assert(keys_of(after)[b] == after[b].0@);
        assert(keys_of(entries)[a] == entries[a].0@);
        assert(keys_of(entries)[b] == entries[b].0@);
    }
    assert forall|key: Seq<char>| #[trigger] has_key(after, key) == has_key(entries, key) by {
        if has_key(after, key) {
            let j = choose|j: int| 0 <= j < after.len() && #[trigger] after[j].0@ == key;
            assert(entries[j].0@ == key);
        }
        if has_key(entries, key) {
            let j = choose|j: int| 0 <= j < entries.len() && #[trigger] entries[j].0@ == key;
            assert(after[j].0@ == key);
        }
    }
    lemma_map_of_index(entries, i);
    assert forall|key: Seq<char>| #[trigger] map_of(after).contains_key(key) implies map_of(after)[key]
        == map_of(entries).insert(entry.0@, entry.1)[key] by {
        assert(has_key(after, key));
        let j = choose|j: int| 0 <= j < after.len() && #[trigger] after[j].0@ == key;
        lemma_map_of_index(after, j);
        if j != i {
            lemma_map_of_index(entries, j);
            assert(keys_of(entries)[j] == entries[j].0@);
            assert(keys_of(entries)[i] == entries[i].0@);
            assert(key != entry.0@);
        }
    }
    assert(map_of(after) =~= map_of(entries).insert(entry.0@, entry.1));
}

/// Removing the entry at `i` removes its key from the map.
pub proof fn lemma_map_of_remove<V>(entries: Seq<(String, V)>, i: int)
    requires
        keys_unique(keys_of(entries)),
        0 <= i < entries.len(),
    ensures
        keys_unique(keys_of(entries.remove(i))),
        map_of(entries.remove(i)) == map_of(entries).remove(entries[i].0@),
{
    let after = entries.remove(i);
    let gone = entries[i].0@;
    assert forall|a: int, b: int|
        0 <= a < keys_of(after).len() && 0 <= b < keys_of(after).len() && a != b implies keys_of(
        after,
    )[a] != keys_of(after)[b] by {
        let a0 = if a < i { a } else { a + 1 };
        let b0 = if b < i { b } else { b + 1 };
        assert(keys_of(after)[a] == entries[a0].0@);
        assert(keys_of(after)[b] == entries[b0].0@);
        assert(keys_of(entries)[a0] == entries[a0].0@);
        assert(keys_of(entries)[b0] == entries[b0].0@);
    }
    assert forall|key: Seq<char>| #[trigger] has_key(after, key) == (has_key(entries, key) && key
        != gone) by {
        if has_key(after, key) {
            let j = choose|j: int| 0 <= j < after.len() && #[trigger] after[j].0@ == key;
            let j0 = if j < i { j } else { j + 1 };
            assert(entries[j0].0@ == key);
            assert(keys_of(entries)[j0] == key);
            assert(keys_of(entries)[i] == gone);
        }
        if has_key(entries, key) && key != gone {
            let j = choose|j: int| 0 <= j < entries.len() && #[trigger] entries[j].0@ == key;
            if j < i {
                assert(after[j].0@ == key);
            } else {
                assert(after[j - 1].0@ == key);
            }
        }
    }
    assert forall|key: Seq<char>| #[trigger] map_of(after).contains_key(key) implies map_of(after)[key]
        == map_of(entries).remove(gone)[key] by {
        let j = choose|j: int| 0 <= j < after.len() && #[trigger] after[j].0@ == key;
        lemma_map_of_index(after, j);
        let j0 = if j < i { j } else { j + 1 };
        lemma_map_of_index(entries, j0);
    }
    assert(map_of(after) =~= map_of(entries).remove(gone));
}

/// A list with distinct keys stands for a finite map with as many keys as
/// the list has entries.
pub proof fn lemma_map_of_len<V>(entries: Seq<(String, V)>)
    requires
        keys_unique(keys_of(entries)),
    ensures
        map_of(entries).dom().finite(),
        map_of(entries).dom().len() == entries.len(),
    decreases entries.len(),
{
    if entries.len() == 0 {
        assert(map_of(entries).dom() =~= Set::<Seq<char>>::empty());
    } else {
        let front = entries.drop_last();
        let last = entries.last();
        assert forall|a: int, b: int|
            0 <= a < keys_of(front).len() && 0 <= b < keys_of(front).len() && a != b implies keys_of(
            front,
        )[a] != keys_of(front)[b] by {
            assert(keys_of(front)[a] == keys_of(entries)[a]);
            assert(keys_of(front)[b] == keys_of(entries)[b]);
        }
        assert(!has_key(front, last.0@)) by {
            if has_key(front, last.0@) {
                let j = choose|j: int| 0 <= j < front.len() && #[trigger] front[j].0@ == last.0@;
                assert(keys_of(entries)[j] == entries[j].0@);
                assert(keys_of(entries)[entries.len() - 1] == last.0@);
            }
        }
        lemma_map_of_len(front);
        lemma_map_of_push(front, last);
        assert(front.push(last) =~= entries);
        assert(!map_of(front).dom().contains(last.0@));
    }
}

/// A list of entries keyed by URL, no URL twice: a finite map from URLs.
#[derive(Debug)]
pub struct KeyedList<V> {
    entries: Vec<(String, V)>,
}

impl<V> KeyedList<V> {
    /// The map the list stands for.
    pub closed spec fn map(&self) -> Map<Seq<char>, V> {
        map_of(self.entries@)
    }

    /// No URL occurs twice.
    pub closed spec fn wf(&self) -> bool {
        keys_unique(keys_of(self.entries@))
    }

    /// An empty list.
    pub fn new() -> (r: Self)
        ensures
            r.wf(),
            r.map() == Map::<Seq<char>, V>::empty(),
    {
        let r = KeyedList { entries: Vec::new() };
        assert(r.map() =~= Map::<Seq<char>, V>::empty());
        r
    }

    /// Where the entry for `key` sits, if any.
    fn find(&self, key: &str) -> (r: Option<usize>)
        requires
            self.wf(),
        ensures
            match r {
                Some(i) => i < self.entries@.len() && self.entries@[i as int].0@ == key@,
                None => !self.map().contains_key(key@),
            },
    {
        let mut i: usize = 0;
        while i < self.entries.len()
            invariant
                0 <= i <= self.entries@.len(),
                forall|j: int| 0 <= j < i ==> self.entries@[j].0@ != key@,
            decreases self.entries@.len() - i,
        {
            if str_equal(self.entries[i].0.as_str(), key) {
                return Some(i);
            }
            i = i + 1;
        }
        proof {
            if has_key(self.entries@, key@) {
                let j = choose|j: int| 0 <= j < self.entries@.len() && #[trigger] self.entries@[j].0@
                    == key@;
                assert(self.entries@[j].0@ != key@);
            }
        }
        None
    }

    /// The value held for `key`, if any.
    pub fn get(&self, key: &str) -> (r: Option<&V>)
        requires
            self.wf(),
        ensures
            match r {
                Some(value) => self.map().contains_key(key@) && self.map()[key@] == *value,
                None => !self.map().contains_key(key@),
            },
    {
        match self.find(key) {
            Some(i) => {
                proof {
                    lemma_map_of_index(self.entries@, i as int);
                }
                Some(&self.entries[i].1)
            },
            None => None,
        }
    }

    /// Whether a value is held for `key`.
    pub fn contains(&self, key: &str) -> (r: bool)
        requires
            self.wf(),
        ensures
            r == self.map().contains_key(key@),
    {
        self.get(key).is_some()
    }

    /// Holds `value` for `key`, replacing what was held for it.
    pub fn insert(&mut self, key: String, value: V)
        requires
            old(self).wf(),
        ensures
            final(self).wf(),
            final(self).map() == old(self).map().insert(key@, value),
    {
        let ghost k = key@;
        match self.find(key.as_str()) {
            Some(i) => {
                proof {
                    lemma_map_of_update(self.entries@, i as int, (key, value));
                }
                self.entries.set(i, (key, value));
            },
            None => {
                proof {
                    lemma_map_of_push(self.entries@, (key, value));
                }
                self.entries.push((key, value));
            },
        }
    }

    /// Drops what is held for `key`, returning it.
    pub fn remove(&mut self, key: &str) -> (r: Option<V>)
        requires
            old(self).wf(),
        ensures
            final(self).wf(),
            final(self).map() == old(self).map().remove(key@),
            r == (if old(self).map().contains_key(key@) {
                Some(old(self).map()[key@])
            } else {
                None
            }),
    {
        match self.find(key) {
            Some(i) => {
                proof {
                    lemma_map_of_index(self.entries@, i as int);
                    lemma_map_of_remove(self.entries@, i as int);
                }
                let (_, value) = self.entries.remove(i);
                Some(value)
            },
            None => {
                proof {
                    assert(self.map() =~= old(self).map().remove(key@));
                }
                None
            },
        }
    }

    /// The value held when exactly one key is held.
    pub fn sole(&self) -> (r: Option<&V>)
        requires
            self.wf(),
        ensures
            match r {
                Some(value) => exists|key: Seq<char>|
                    self.map().dom() == set![key] && self.map()[key] == *value,
                None => forall|key: Seq<char>| self.map().dom() != set![key],
            },
    {
        if self.entries.len() == 1 {
            proof {
                let key = self.entries@[0].0@;
                lemma_map_of_index(self.entries@, 0);
                assert forall|k: Seq<char>| self.map().dom().contains(k) <==> set![key].contains(k) by {
                    if has_key(self.entries@, k) {
                        let j = choose|j: int| 0 <= j < self.entries@.len() && #[trigger] self.entries@[j].0@
                            == k;
                        assert(j == 0);
                    }
                }
                assert(self.map().dom() =~= set![key]);
            }
            Some(&self.entries[0].1)
        } else {
            proof {
                assert forall|key: Seq<char>| self.map().dom() != set![key] by {
                    if self.entries@.len() == 0 {
                        assert(!self.map().dom().contains(key));
                        assert(set![key].contains(key));
                    } else {
                        let a = self.entries@[0].0@;
                        let b = self.entries@[1].0@;
                        assert(keys_of(self.entries@)[0] == a);
                        assert(keys_of(self.entries@)[1] == b);
                        assert(has_key(self.entries@, a));
                        assert(has_key(self.entries@, b));
                        assert(self.map().dom().contains(a));
                        assert(self.map().dom().contains(b));
                    }
                }
            }
            None
        }
    }

    /// The held keys, in increasing order.
    pub fn sorted_keys(&self) -> (r: Vec<String>)
        requires
            self.wf(),
        ensures
            forall|i: int, j: int| 0 <= i < j < r@.len() ==> crate::text_utils::sorting::seq_less(
                #[trigger] r@[i]@,
                #[trigger] r@[j]@,
            ),
            forall|key: Seq<char>| self.map().contains_key(key) <==> exists|i: int|
                0 <= i < r@.len() && #[trigger] r@[i]@ == key,
    {
        let mut pairs: Vec<(String, ())> = Vec::new();
        let mut i: usize = 0;
        while i < self.entries.len()
            invariant
                0 <= i <= self.entries@.len(),
                keys_unique(keys_of(self.entries@)),
                pairs@.len() == i,
                forall|j: int| 0 <= j < i ==> #[trigger] pairs@[j].0@ == self.entries@[j].0@,
            decreases self.entries@.len() - i,
        {
            let key = self.entries[i].0.clone();
            pairs.push((key, ()));
            i = i + 1;
        }
        proof {
            assert forall|a: int, b: int|
                0 <= a < keys_of(pairs@).len() && 0 <= b < keys_of(pairs@).len() && a != b implies keys_of(
                pairs@,
            )[a] != keys_of(pairs@)[b] by {
                assert(keys_of(pairs@)[a] == pairs@[a].0@);
                assert(keys_of(pairs@)[b] == pairs@[b].0@);
                assert(keys_of(self.entries@)[a] == self.entries@[a].0@);
                assert(keys_of(self.entries@)[b] == self.entries@[b].0@);
            }
        }
        let ghost unsorted = pairs@;
        let sorted = sort_by_key(pairs);
        let mut r: Vec<String> = Vec::new();
        let mut sorted = sorted;
        let ghost all = sorted@;
        while sorted.len() > 0
            invariant
                sorted@ == all.skip(r@.len() as int),
                r@.len() <= all.len(),
                forall|j: int| 0 <= j < r@.len() ==> #[trigger] r@[j]@ == all[j].0@,
            decreases sorted@.len(),
        {
            let ghost before = sorted@;
            let (key, _) = sorted.remove(0);
            proof {
                assert(sorted@ =~= all.skip(r@.len() as int + 1));
            }
            r.push(key);
        }
        proof {
            assert(r@.len() == all.len());
            assert forall|a: int, b: int| 0 <= a < b < r@.len() implies crate::text_utils::sorting::seq_less(
                #[trigger] r@[a]@,
                #[trigger] r@[b]@,
            ) by {
                assert(keys_of(all)[a] == all[a].0@);
                assert(keys_of(all)[b] == all[b].0@);
            }
            assert forall|key: Seq<char>| self.map().contains_key(key) <==> exists|i: int|
                0 <= i < r@.len() && #[trigger] r@[i]@ == key by {
                if self.map().contains_key(key) {
                    let j = choose|j: int| 0 <= j < self.entries@.len() && #[trigger] self.entries@[j].0@
                        == key;
                    assert(unsorted[j].0@ == key);
                    assert(unsorted.contains(unsorted[j]));
                    assert(all.contains(unsorted[j]));
                    let i = choose|i: int| 0 <= i < all.len() && all[i] == unsorted[j];
                    assert(r@[i]@ == key);
                }
                if exists|i: int| 0 <= i < r@.len() && #[trigger] r@[i]@ == key {
                    let i = choose|i: int| 0 <= i < r@.len() && #[trigger] r@[i]@ == key;
                    assert(all.contains(all[i]));
                    assert(unsorted.contains(all[i]));
                    let j = choose|j: int| 0 <= j < unsorted.len() && unsorted[j] == all[i];
                    assert(self.entries@[j].0@ == key);
                    assert(has_key(self.entries@, key));
                }
            }
        }
        r
    }

    /// Keeps exactly the entries that `keep` accepts; `keep` decides as
    /// `spec_keep` says.
    pub fn retain<F: Fn(&String, &V) -> bool>(
        &mut self,
        keep: F,
        Ghost(spec_keep): Ghost<spec_fn(Seq<char>, V) -> bool>,
    )
        requires
            old(self).wf(),
            forall|k: &String, v: &V| keep.requires((k, v)),
            forall|k: &String, v: &V, b: bool| keep.ensures((k, v), b) ==> b == spec_keep(k@, *v),
        ensures
            final(self).wf(),
            forall|k: Seq<char>| #[trigger]
                final(self).map().contains_key(k) <==> old(self).map().contains_key(k) && spec_keep(
                    k,
                    old(self).map()[k],
                ),
            forall|k: Seq<char>| #[trigger]
                final(self).map().contains_key(k) ==> final(self).map()[k] == old(self).map()[k],
    {
        let ghost all = self.entries@;
        let mut rest: Vec<(String, V)> = Vec::new();
        std::mem::swap(&mut rest, &mut self.entries);
        let mut out: Vec<(String, V)> = Vec::new();
        proof {
            assert(all.take(all.len() as int) =~= all);
            assert(map_of(out@) =~= Map::<Seq<char>, V>::empty());
        }
        while rest.len() > 0
            invariant
                keys_unique(keys_of(all)),
                rest@ == all.take(rest@.len() as int),
                rest@.len() <= all.len(),
                keys_unique(keys_of(out@)),
                forall|k: &String, v: &V| keep.requires((k, v)),
                forall|k: &String, v: &V, b: bool| keep.ensures((k, v), b) ==> b == spec_keep(k@, *v),
                forall|k: Seq<char>| #[trigger]
                    map_of(out@).contains_key(k) <==> (has_key(all.skip(rest@.len() as int), k)
                        && spec_keep(k, map_of(all)[k])),
                forall|k: Seq<char>| #[trigger]
                    map_of(out@).contains_key(k) ==> map_of(out@)[k] == map_of(all)[k],
                forall|k: Seq<char>| #[trigger]
                    has_key(out@, k) ==> has_key(all.skip(rest@.len() as int), k),
            decreases rest@.len(),
        {
            let ghost n = rest@.len() as int;
            let entry = rest.pop().unwrap();
            proof {
                assert(entry == all[n - 1]);
                assert(rest@ =~= all.take(n - 1));
                lemma_map_of_index(all, n - 1);
                assert forall|k: Seq<char>| #[trigger] has_key(all.skip(n - 1), k) <==> (has_key(
                    all.skip(n),
                    k,
                ) || k == entry.0@) by {
                    if has_key(all.skip(n - 1), k) {
                        let j = choose|j: int| 0 <= j < all.skip(n - 1).len() && #[trigger] all.skip(
                            n - 1,
                        )[j].0@ == k;
                        if j > 0 {
                            assert(all.skip(n)[j - 1].0@ == k);
                        }
                    }
                    if has_key(all.skip(n), k) {
                        let j = choose|j: int| 0 <= j < all.skip(n).len() && #[trigger] all.skip(n)[j].0@
                            == k;
                        assert(all.skip(n - 1)[j + 1].0@ == k);
                    }
                    if k == entry.0@ {
                        assert(all.skip(n - 1)[0].0@ == k);
                    }
                }
                assert(!has_key(all.skip(n), entry.0@)) by {
                    if has_key(all.skip(n), entry.0@) {
                        let j = choose|j: int| 0 <= j < all.skip(n).len() && #[trigger] all.skip(n)[j].0@
                            == entry.0@;
                        assert(keys_of(all)[n + j] == all[n + j].0@);
                        assert(keys_of(all)[n - 1] == all[n - 1].0@);
                    }
                }
            }
            let kept = keep(&entry.0, &entry.1);
            if kept {
                proof {
                    lemma_map_of_push(out@, entry);
                    let pushed = out@.push(entry);
                    assert forall|k: Seq<char>| #[trigger] has_key(pushed, k) implies has_key(
                        all.skip(n - 1),
                        k,
                    ) by {
                        let j = choose|j: int| 0 <= j < pushed.len() && #[trigger] pushed[j].0@ == k;
                        if j < out@.len() {
                            assert(out@[j].0@ == k);
                            assert(has_key(out@, k));
                            assert(has_key(all.skip(n), k));
                        } else {
                            assert(k == entry.0@);
                        }
                    }
                }
                out.push(entry);
            }
        }
        proof {
            assert(all.skip(0) =~= all);
        }
        self.entries = out;
    }

    /// The number of keys held.
    pub fn len(&self) -> (r: usize)
        requires
            self.wf(),
        ensures
            self.map().dom().finite(),
            r == self.map().dom().len(),
    {
        proof {
            lemma_map_of_len(self.entries@);
        }
        self.entries.len()
    }

    /// Drops every entry.
    pub fn clear(&mut self)
        ensures
            final(self).wf(),
            final(self).map() == Map::<Seq<char>, V>::empty(),
    {
        self.entries = Vec::new();
        proof {
            assert(self.map() =~= Map::<Seq<char>, V>::empty());
        }
    }
}

} // verus!
