//! A store of values under string keys.
//!
//! Both registries of the service are maps keyed by strings.  The store
//! holds each key once and presents itself as a `Map<Seq<char>, V>`, with a
//! get / insert / remove / len contract over that view, so that a different
//! backing could replace it without touching the protocol logic.

use vstd::prelude::*;

verus! {

/// The map written by an entry sequence, later entries winning.
pub open spec fn entries_map<V>(s: Seq<(String, V)>) -> Map<Seq<char>, V>
    decreases s.len(),
{
    if s.len() == 0 {
        Map::empty()
    } else {
        entries_map(s.drop_last()).insert(s.last().0@, s.last().1)
    }
}

/// Every key is held at most once.
pub open spec fn distinct_keys<V>(s: Seq<(String, V)>) -> bool {
    forall|i: int, j: int| 0 <= i < j < s.len() ==> s[i].0@ != s[j].0@
}

/// Each entry is present in the map under its own key.
proof fn lemma_entries_map_index<V>(s: Seq<(String, V)>, i: int)
    requires
        distinct_keys(s),
        0 <= i < s.len(),
    ensures
        entries_map(s).contains_key(s[i].0@),
        entries_map(s)[s[i].0@] == s[i].1,
    decreases s.len(),
{
    if i < s.len() - 1 {
        assert(s.drop_last()[i] == s[i]);
        lemma_entries_map_index(s.drop_last(), i);
        assert(s[i].0@ != s[s.len() - 1].0@);
    }
}

/// Every key of the map is the key of some entry.
proof fn lemma_entries_map_keys<V>(s: Seq<(String, V)>, k: Seq<char>)
    requires
        entries_map(s).contains_key(k),
    ensures
        exists|i: int| 0 <= i < s.len() && s[i].0@ == k,
    decreases s.len(),
{
    if s.len() > 0 && s.last().0@ != k {
        lemma_entries_map_keys(s.drop_last(), k);
        let j = choose|j: int| 0 <= j < s.drop_last().len() && s.drop_last()[j].0@ == k;
        assert(s[j].0@ == k);
    }
}

/// With each key held once, the map is as large as the entry sequence.
proof fn lemma_entries_map_len<V>(s: Seq<(String, V)>)
    requires
        distinct_keys(s),
    ensures
        entries_map(s).dom().finite(),
        entries_map(s).dom().len() == s.len(),
    decreases s.len(),
{
    if s.len() > 0 {
        let dl = s.drop_last();
        lemma_entries_map_len(dl);
        if entries_map(dl).contains_key(s.last().0@) {
            lemma_entries_map_keys(dl, s.last().0@);
            let j = choose|j: int| 0 <= j < dl.len() && dl[j].0@ == s.last().0@;
            assert(s[j].0@ == s[s.len() - 1].0@);
            assert(false);
        }
    }
}

/// Removing an entry removes exactly its key from the map.
proof fn lemma_entries_map_remove<V>(s: Seq<(String, V)>, i: int)
    requires
        distinct_keys(s),
        0 <= i < s.len(),
    ensures
        distinct_keys(s.remove(i)),
        entries_map(s.remove(i)) == entries_map(s).remove(s[i].0@),
    decreases s.len(),
{
    let k = s[i].0@;
    if i == s.len() - 1 {
        assert(s.remove(i) =~= s.drop_last());
        if entries_map(s.drop_last()).contains_key(k) {
            lemma_entries_map_keys(s.drop_last(), k);
            let j = choose|j: int| 0 <= j < s.drop_last().len() && s.drop_last()[j].0@ == k;
            assert(s[j].0@ == s[i].0@);
            assert(false);
        }
        assert(entries_map(s.drop_last()) =~= entries_map(s).remove(k));
    } else {
        let dl = s.drop_last();
        lemma_entries_map_remove(dl, i);
        assert(s.remove(i) =~= dl.remove(i).push(s.last()));
        assert(s.remove(i).drop_last() =~= dl.remove(i));
        assert(entries_map(s.remove(i)) == entries_map(dl.remove(i)).insert(
            s.last().0@,
            s.last().1,
        ));
        assert(s[i].0@ != s.last().0@);
        assert(entries_map(dl).remove(k).insert(s.last().0@, s.last().1) =~= entries_map(
            dl,
        ).insert(s.last().0@, s.last().1).remove(k));
    }
}

/// A store of values under string keys, each key held once.
pub struct StrMap<V> {
    entries: Vec<(String, V)>,
}

impl<V> View for StrMap<V> {
    type V = Map<Seq<char>, V>;

    closed spec fn view(&self) -> Map<Seq<char>, V> {
        entries_map(self.entries@)
    }
}

impl<V> StrMap<V> {
    /// Each key is held at most once, so lookups and removals are exact.
    pub closed spec fn well_formed(&self) -> bool {
        distinct_keys(self.entries@)
    }

    pub fn new() -> (r: Self)
        ensures
            r.well_formed(),
            r@ == Map::<Seq<char>, V>::empty(),
    {
        StrMap { entries: Vec::new() }
    }

    /// The position of the entry holding `k`, if one does.
    fn find(&self, k: &String) -> (r: Option<usize>)
        requires
            self.well_formed(),
        ensures
            match r {
                Some(i) => {
                    &&& i < self.entries@.len()
                    &&& self.entries@[i as int].0@ == k@
                    &&& self@.contains_key(k@)
                    &&& self@[k@] == self.entries@[i as int].1
                },
                None => !self@.contains_key(k@),
            },
    {
        let n = self.entries.len();
        let mut i: usize = 0;
        while i < n
            invariant
                n == self.entries@.len(),
                i <= n,
                self.well_formed(),
                forall|j: int| 0 <= j < i ==> self.entries@[j].0@ != k@,
            decreases n - i,
        {
            if self.entries[i].0 == *k {
                proof {
                    lemma_entries_map_index(self.entries@, i as int);
                }
                return Some(i);
            }
            i = i + 1;
        }
        proof {
            if self@.contains_key(k@) {
                lemma_entries_map_keys(self.entries@, k@);
            }
        }
        None
    }

    pub fn contains(&self, k: &String) -> (r: bool)
        requires
            self.well_formed(),
        ensures
            r == self@.contains_key(k@),
    {
        self.find(k).is_some()
    }

    pub fn get(&self, k: &String) -> (r: Option<&V>)
        requires
            self.well_formed(),
        ensures
            r is Some <==> self@.contains_key(k@),
            r is Some ==> *r->0 == self@[k@],
    {
        match self.find(k) {
            Some(i) => Some(&self.entries[i].1),
            None => None,
        }
    }

    /// Removes the entry holding `k`, if one does.
    pub fn remove(&mut self, k: &String)
        requires
            old(self).well_formed(),
        ensures
            final (self).well_formed(),
            final (self)@ == old(self)@.remove(k@),
    {
        match self.find(k) {
            Some(i) => {
                proof {
                    lemma_entries_map_remove(self.entries@, i as int);
                }
                self.entries.remove(i);
            },
            None => {
                proof {
                    assert(self@.remove(k@) =~= self@);
                }
            },
        }
    }

    /// Inserts `v` under `k`, replacing what the key held before.
    pub fn insert(&mut self, k: String, v: V)
        requires
            old(self).well_formed(),
        ensures
            final (self).well_formed(),
            final (self)@ == old(self)@.insert(k@, v),
    {
        self.remove(&k);
        proof {
            assert forall|j: int| 0 <= j < self.entries@.len() implies self.entries@[j].0@
                != k@ by {
                lemma_entries_map_index(self.entries@, j);
            }
            assert(self.entries@.push((k, v)).drop_last() =~= self.entries@);
            assert(old(self)@.remove(k@).insert(k@, v) =~= old(self)@.insert(k@, v));
        }
        self.entries.push((k, v));
    }

    /// A store holding a key is not empty.
    pub proof fn lemma_nonempty(&self, k: Seq<char>)
        requires
            self.well_formed(),
            self@.contains_key(k),
        ensures
            self@.dom().len() >= 1,
    {
        lemma_entries_map_keys(self.entries@, k);
        lemma_entries_map_len(self.entries@);
    }

    /// How many keys the store holds.
    pub fn len(&self) -> (n: usize)
        requires
            self.well_formed(),
        ensures
            n == self@.dom().len(),
    {
        proof {
            lemma_entries_map_len(self.entries@);
        }
        self.entries.len()
    }
}

} // verus!
