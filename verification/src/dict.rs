//! An association table from byte-string keys to values, with last-written
//! entry winning on a repeated key; the shape the request parser builds its
//! cookie, input and file collections in.

use vstd::prelude::*;

verus! {

/// The map described by an entry sequence: later entries win.
pub open spec fn entries_map<K, T>(s: Seq<(K, T)>) -> Map<K, T>
    decreases s.len(),
{
    if s.len() == 0 {
        Map::empty()
    } else {
        entries_map(s.drop_last()).insert(s.last().0, s.last().1)
    }
}

/// A key is in the map exactly when some entry carries it.
pub proof fn lemma_entries_map_dom<K, T>(s: Seq<(K, T)>, k: K)
    ensures
        entries_map(s).contains_key(k) <==> exists|i: int| 0 <= i < s.len() && s[i].0 == k,
    decreases s.len(),
{
    if s.len() > 0 {
        lemma_entries_map_dom(s.drop_last(), k);
        if s.last().0 == k {
            assert(s[s.len() - 1].0 == k);
        } else if entries_map(s).contains_key(k) {
            let i = choose|i: int| 0 <= i < s.drop_last().len() && s.drop_last()[i].0 == k;
            assert(s[i].0 == k);
        } else {
            if exists|i: int| 0 <= i < s.len() && s[i].0 == k {
                let i = choose|i: int| 0 <= i < s.len() && s[i].0 == k;
                assert(s.drop_last()[i].0 == k);
            }
        }
    }
}

/// The value for a key is the one of the last entry carrying it.
pub proof fn lemma_entries_map_last<K, T>(s: Seq<(K, T)>, i: int)
    requires
        0 <= i < s.len(),
        forall|j: int| i < j < s.len() ==> s[j].0 != s[i].0,
    ensures
        entries_map(s).contains_key(s[i].0),
        entries_map(s)[s[i].0] == s[i].1,
    decreases s.len(),
{
    if i == s.len() - 1 {
    } else {
        lemma_entries_map_last(s.drop_last(), i);
        assert(s.drop_last()[i] == s[i]);
    }
}

/// With pairwise distinct keys the map has exactly one entry per pair.
pub proof fn lemma_entries_map_count<K, T>(s: Seq<(K, T)>)
    requires
        forall|i: int, j: int| 0 <= i < j < s.len() ==> s[i].0 != s[j].0,
    ensures
        entries_map(s).dom().finite(),
        entries_map(s).dom().len() == s.len(),
    decreases s.len(),
{
    if s.len() > 0 {
        let t = s.drop_last();
        lemma_entries_map_count(t);
        lemma_entries_map_dom(t, s.last().0);
        assert(forall|i: int| 0 <= i < t.len() ==> t[i] == s[i]);
        assert(!entries_map(t).contains_key(s.last().0));
        assert(entries_map(s).dom() =~= entries_map(t).dom().insert(s.last().0));
    }
}

/// An association table from byte-string keys to values.
pub struct Table<V> {
    entries: Vec<(Vec<u8>, V)>,
}

/// A table from byte-string keys to byte-string values, the common case.
pub type Dict = Table<Vec<u8>>;

impl<V: View> Table<V> {
    /// The table's entries as key and value abstractions, in insertion
    /// order.
    pub closed spec fn seq_of(&self) -> Seq<(Seq<u8>, V::V)> {
        self.entries@.map_values(|e: (Vec<u8>, V)| (e.0@, e.1@))
    }

    /// The number of entries, repeated keys counted each time they were
    /// inserted.
    pub open spec fn count(&self) -> nat {
        self.seq_of().len()
    }
}

impl<V: View> View for Table<V> {
    type V = Map<Seq<u8>, V::V>;

    open spec fn view(&self) -> Map<Seq<u8>, V::V> {
        entries_map(self.seq_of())
    }
}

impl<V: View> Table<V> {
    /// An empty table.
    pub fn new() -> (r: Self)
        ensures
            r@ == Map::<Seq<u8>, V::V>::empty(),
            r.seq_of() == Seq::<(Seq<u8>, V::V)>::empty(),
            r.count() == 0,
    {
        let r = Table { entries: Vec::new() };
        proof {
            assert(r.seq_of() =~= Seq::<(Seq<u8>, V::V)>::empty());
        }
        r
    }

    /// The number of entries.
    pub fn len(&self) -> (r: usize)
        ensures
            r == self.count(),
    {
        self.entries.len()
    }

    /// Whether the table is empty.
    pub fn is_empty(&self) -> (r: bool)
        ensures
            r == (self.count() == 0),
    {
        self.entries.is_empty()
    }

    /// Appends an entry; in the map the new value wins over an earlier one
    /// under the same key.
    pub fn insert(&mut self, k: Vec<u8>, v: V)
        ensures
            final(self).seq_of() == old(self).seq_of().push((k@, v@)),
            final(self)@ == old(self)@.insert(k@, v@),
            final(self).count() == old(self).count() + 1,
    {
        let ghost gk = k@;
        let ghost gv = v@;
        self.entries.push((k, v));
        proof {
            assert(self.seq_of() =~= old(self).seq_of().push((gk, gv)));
            assert(self.seq_of().drop_last() =~= old(self).seq_of());
        }
    }

    /// Looks a key up; the result is the value of the last entry under it.
    pub fn get(&self, k: &[u8]) -> (r: Option<&V>)
        ensures
            match r {
                Some(v) => self@.contains_key(k@) && v@ == self@[k@],
                None => !self@.contains_key(k@),
            },
    {
        let mut i: usize = self.entries.len();
        while i > 0
            invariant
                0 <= i <= self.entries@.len(),
                forall|j: int| i <= j < self.entries@.len() ==> self.seq_of()[j].0 != k@,
            decreases i,
        {
            i = i - 1;
            if crate::text::eq_bytes(self.entries[i].0.as_slice(), k) {
                proof {
                    assert(self.seq_of()[i as int].0 == k@);
                    lemma_entries_map_last(self.seq_of(), i as int);
                }
                return Some(&self.entries[i].1);
            }
            proof {
                assert(self.seq_of()[i as int].0 != k@);
            }
        }
        proof {
            lemma_entries_map_dom(self.seq_of(), k@);
        }
        None
    }

    /// Whether a key is present.
    pub fn contains_key(&self, k: &[u8]) -> (r: bool)
        ensures
            r == self@.contains_key(k@),
    {
        self.get(k).is_some()
    }

    /// The entry at an insertion-order position; for walking the table.
    pub fn entry_at(&self, i: usize) -> (r: (&Vec<u8>, &V))
        requires
            i < self.count(),
        ensures
            r.0@ == self.seq_of()[i as int].0,
            r.1@ == self.seq_of()[i as int].1,
    {
        (&self.entries[i].0, &self.entries[i].1)
    }
}

} // verus!
