//! A map with strings as keys, small enough to be searched from end to end.
use vstd::prelude::*;

use crate::text::equal;

verus! {

/// A map from strings to values. It lists its entries in the order in which their keys were
/// last written.
#[derive(Clone, Debug)]
pub struct StringMap<V> {
    entries: Vec<(String, V)>,
}

/// The map that a list of entries makes up, later ones before earlier ones.
pub open spec fn entries_map<V: View>(e: Seq<(String, V)>) -> Map<Seq<char>, V::V>
    decreases e.len(),
{
    if e.len() == 0 {
        Map::empty()
    } else {
        entries_map(e.drop_last()).insert(e.last().0@, e.last().1@)
    }
}

/// The keys with `key` at the end, and not where it stood before.
pub open spec fn keys_with_last(keys: Seq<Seq<char>>, key: Seq<char>) -> Seq<Seq<char>> {
    if keys.contains(key) {
        keys.remove(keys.index_of(key)).push(key)
    } else {
        keys.push(key)
    }
}

/// No key stands twice in a list of entries.
pub open spec fn keys_distinct<V>(e: Seq<(String, V)>) -> bool {
    forall|i: int, j: int| 0 <= i < j < e.len() ==> (#[trigger] e[i]).0@ != (#[trigger] e[j]).0@
}

/// What the map of a list with distinct keys holds.
proof fn lemma_entries_map<V: View>(e: Seq<(String, V)>)
    requires
        keys_distinct(e),
    ensures
        forall|i: int|
            0 <= i < e.len() ==> entries_map(e).contains_key((#[trigger] e[i]).0@) && entries_map(
                e,
            )[e[i].0@] == e[i].1@,
        forall|k: Seq<char>| #[trigger]
            entries_map(e).contains_key(k) ==> exists|i: int| 0 <= i < e.len() && e[i].0@ == k,
        entries_map(e).dom().finite(),
        entries_map(e).dom().len() == e.len(),
    decreases e.len(),
{
    if e.len() > 0 {
        let init = e.drop_last();
        assert forall|i: int, j: int| 0 <= i < j < init.len() implies (#[trigger] init[i]).0@ != (
        #[trigger] init[j]).0@ by {
            assert(e[i] == init[i] && e[j] == init[j]);
        }
        lemma_entries_map(init);
        let last = e.last();
        assert(e[e.len() - 1] == last);
        assert(!entries_map(init).contains_key(last.0@)) by {
            if entries_map(init).contains_key(last.0@) {
                let i = choose|i: int| 0 <= i < init.len() && init[i].0@ == last.0@;
                assert(e[i].0@ == last.0@);
            }
        }
        assert forall|i: int| 0 <= i < e.len() implies entries_map(e).contains_key(
            (#[trigger] e[i]).0@,
        ) && entries_map(e)[e[i].0@] == e[i].1@ by {
            if i < init.len() {
                assert(init[i] == e[i]);
            }
        }
        assert forall|k: Seq<char>| #[trigger] entries_map(e).contains_key(k) implies exists|i: int|
            0 <= i < e.len() && e[i].0@ == k by {
            if k == last.0@ {
                assert(e[e.len() - 1].0@ == k);
            } else {
                assert(entries_map(init).contains_key(k));
                let i = choose|i: int| 0 <= i < init.len() && init[i].0@ == k;
                assert(e[i].0@ == k);
            }
        }
    }
}

/// Taking an entry out of the list takes its key out of the map.
proof fn lemma_entries_removed<V: View>(e: Seq<(String, V)>, i: int)
    requires
        keys_distinct(e),
        0 <= i < e.len(),
    ensures
        keys_distinct(e.remove(i)),
        entries_map(e.remove(i)) == entries_map(e).remove(e[i].0@),
{
    let r = e.remove(i);
    assert forall|a: int, b: int| 0 <= a < b < r.len() implies (#[trigger] r[a]).0@ != (
    #[trigger] r[b]).0@ by {
        let x = if a < i { a } else { a + 1 };
        let y = if b < i { b } else { b + 1 };
        assert(r[a] == e[x] && r[b] == e[y]);
    }
    lemma_entries_map(e);
    lemma_entries_map(r);
    let m = entries_map(e).remove(e[i].0@);
    let n = entries_map(r);
    assert forall|k: Seq<char>| m.contains_key(k) <==> n.contains_key(k) by {
        if m.contains_key(k) {
            assert(entries_map(e).contains_key(k));
            let x = choose|x: int| 0 <= x < e.len() && e[x].0@ == k;
            let a = if x < i { x } else { x - 1 };
            assert(r[a] == e[x]);
        }
        if n.contains_key(k) {
            let a = choose|a: int| 0 <= a < r.len() && r[a].0@ == k;
            let x = if a < i { a } else { a + 1 };
            assert(e[x] == r[a]);
            assert(e[i].0@ != e[x].0@);
        }
    }
    assert forall|k: Seq<char>| m.contains_key(k) && n.contains_key(k) implies m[k] == n[k] by {
        let a = choose|a: int| 0 <= a < r.len() && r[a].0@ == k;
        let x = if a < i { a } else { a + 1 };
        assert(e[x] == r[a]);
    }
    assert(n =~= m);
}

impl<V: View> View for StringMap<V> {
    type V = Map<Seq<char>, V::V>;

    closed spec fn view(&self) -> Map<Seq<char>, V::V> {
        entries_map(self.entries@)
    }
}

impl<V: View> StringMap<V> {
    /// No key stands twice in the map.
    pub closed spec fn wf(&self) -> bool {
        keys_distinct(self.entries@)
    }

    /// The keys in the order of the listing.
    pub closed spec fn keys(&self) -> Seq<Seq<char>> {
        self.entries@.map_values(|e: (String, V)| e.0@)
    }

    /// The listing has every key once.
    pub proof fn lemma_keys(&self)
        requires
            self.wf(),
        ensures
            self@.dom().finite(),
            self@.dom().len() == self.keys().len(),
            self.keys().no_duplicates(),
            forall|k: Seq<char>| #[trigger] self@.contains_key(k) <==> self.keys().contains(k),
    {
        let e = self.entries@;
        lemma_entries_map(e);
        assert forall|k: Seq<char>| #[trigger] self@.contains_key(k) <==> self.keys().contains(
            k,
        ) by {
            if self@.contains_key(k) {
                let i = choose|i: int| 0 <= i < e.len() && e[i].0@ == k;
                assert(self.keys()[i] == k);
            }
            if self.keys().contains(k) {
                let i = choose|i: int| 0 <= i < self.keys().len() && self.keys()[i] == k;
                assert(e[i].0@ == k);
            }
        }
    }

    /// A map without entries.
    pub fn new() -> (r: Self)
        ensures
            r.wf(),
            r@ == Map::<Seq<char>, V::V>::empty(),
    {
        StringMap { entries: Vec::new() }
    }

    /// The number of entries.
    pub fn len(&self) -> (r: usize)
        requires
            self.wf(),
        ensures
            r == self@.dom().len(),
            r == self.keys().len(),
    {
        proof {
            lemma_entries_map(self.entries@);
        }
        self.entries.len()
    }

    /// Whether there are no entries.
    pub fn is_empty(&self) -> (r: bool)
        requires
            self.wf(),
        ensures
            r == (self@ == Map::<Seq<char>, V::V>::empty()),
    {
        proof {
            lemma_entries_map(self.entries@);
            if self.entries@.len() > 0 {
                assert(self@.contains_key(self.entries@[0].0@));
            }
        }
        self.entries.len() == 0
    }

    /// The position of a key in the listing.
    fn index_of(&self, key: &str) -> (r: Option<usize>)
        requires
            self.wf(),
        ensures
            match r {
                Some(i) => i < self.entries@.len() && self.entries@[i as int].0@ == key@,
                None => !self@.contains_key(key@),
            },
    {
        let mut i: usize = 0;
        while i < self.entries.len()
            invariant
                i <= self.entries@.len(),
                forall|k: int| 0 <= k < i ==> (#[trigger] self.entries@[k]).0@ != key@,
            decreases self.entries@.len() - i,
        {
            if equal(self.entries[i].0.as_str(), key) {
                return Some(i);
            }
            i = i + 1;
        }
        proof {
            lemma_entries_map(self.entries@);
        }
        None
    }

    /// The value of a key.
    pub fn get(&self, key: &str) -> (r: Option<&V>)
        requires
            self.wf(),
        ensures
            match r {
                Some(v) => self@.contains_key(key@) && self@[key@] == v@,
                None => !self@.contains_key(key@),
            },
    {
        match self.index_of(key) {
            Some(i) => {
                proof {
                    lemma_entries_map(self.entries@);
                }
                Some(&self.entries[i].1)
            },
            None => None,
        }
    }

    /// The key at a position of the listing.
    pub fn key_at(&self, i: usize) -> (r: &String)
        requires
            self.wf(),
            i < self.keys().len(),
        ensures
            r@ == self.keys()[i as int],
            self@.contains_key(r@),
    {
        proof {
            lemma_entries_map(self.entries@);
        }
        &self.entries[i].0
    }

    /// The value at a position of the listing.
    pub fn value_at(&self, i: usize) -> (r: &V)
        requires
            self.wf(),
            i < self.keys().len(),
        ensures
            r@ == self@[self.keys()[i as int]],
    {
        proof {
            lemma_entries_map(self.entries@);
        }
        &self.entries[i].1
    }

    /// Takes out the entry at a position of the listing.
    pub fn remove_at(&mut self, i: usize)
        requires
            old(self).wf(),
            i < old(self).keys().len(),
        ensures
            final(self).wf(),
            final(self)@ == old(self)@.remove(old(self).keys()[i as int]),
            final(self).keys() == old(self).keys().remove(i as int),
    {
        proof {
            lemma_entries_removed(self.entries@, i as int);
        }
        self.entries.remove(i);
        proof {
            assert(self.keys() =~= old(self).keys().remove(i as int));
        }
    }

    /// Gives a key a value.
    pub fn insert(&mut self, key: String, value: V)
        requires
            old(self).wf(),
        ensures
            final(self).wf(),
            final(self)@ == old(self)@.insert(key@, value@),
            final(self).keys() == keys_with_last(old(self).keys(), key@),
    {
        proof {
            self.lemma_keys();
        }
        match self.index_of(key.as_str()) {
            Some(i) => {
                proof {
                    assert(self.keys()[i as int] == key@);
                    assert(self.keys().index_of(key@) == i);
                }
                self.remove_at(i);
            },
            None => {},
        }
        let ghost before = self.entries@;
        proof {
            lemma_entries_map(before);
            assert(!self@.contains_key(key@));
            assert(self@.insert(key@, value@) =~= old(self)@.insert(key@, value@));
        }
        let ghost keys = self.keys();
        self.entries.push((key, value));
        proof {
            assert(self.keys() =~= keys.push(key@));
            assert(self.entries@.drop_last() == before);
            assert forall|i: int, j: int| 0 <= i < j < self.entries@.len() implies (
            #[trigger] self.entries@[i]).0@ != (#[trigger] self.entries@[j]).0@ by {
                if j == before.len() {
                    assert(before[i].0@ != key@);
                }
            }
        }
    }
}

} // verus!
