//! A small keyed store of texts.
//!
//! Both caches of the pipeline map a key to a finished text and are looked up
//! far more often than they grow. The store keeps its entries in insertion
//! order and never holds a key twice; its mathematical value is the finite
//! map from the keys it holds to their texts.

use vstd::prelude::*;

verus! {

/// A key that can be compared at run time, where equal means that the
/// mathematical values are equal.
pub trait Key: View + Sized {
    fn same(&self, other: &Self) -> (r: bool)
        ensures
            r == (self@ == other@),
    ;
}

impl Key for String {
    fn same(&self, other: &Self) -> (r: bool) {
        *self == *other
    }
}

/// One key with its text.
struct Entry<K> {
    key: K,
    text: String,
}

/// The map that a sequence of entries stands for; a later entry wins.
spec fn model<K: Key>(entries: Seq<Entry<K>>) -> Map<K::V, Seq<char>>
    decreases entries.len(),
{
    if entries.len() == 0 {
        Map::empty()
    } else {
        model(entries.drop_last()).insert(entries.last().key@, entries.last().text@)
    }
}

/// No key stands at two places.
spec fn distinct<K: Key>(entries: Seq<Entry<K>>) -> bool {
    forall|i: int, j: int| 0 <= i < j < entries.len() ==> entries[i].key@ != entries[j].key@
}

proof fn lemma_model_keys<K: Key>(entries: Seq<Entry<K>>, key: K::V)
    ensures
        model(entries).contains_key(key) <==> exists|i: int|
            0 <= i < entries.len() && (#[trigger] entries[i]).key@ == key,
    decreases entries.len(),
{
    if entries.len() > 0 {
        let front = entries.drop_last();
        lemma_model_keys(front, key);
        if model(entries).contains_key(key) {
            if entries.last().key@ == key {
                assert(entries[entries.len() - 1].key@ == key);
            } else {
                let i = choose|i: int| 0 <= i < front.len() && (#[trigger] front[i]).key@ == key;
                assert(entries[i].key@ == key);
            }
        }
        if exists|i: int| 0 <= i < entries.len() && (#[trigger] entries[i]).key@ == key {
            let i = choose|i: int| 0 <= i < entries.len() && (#[trigger] entries[i]).key@ == key;
            if i < entries.len() - 1 {
                assert(front[i].key@ == key);
            }
        }
    }
}

proof fn lemma_model_at<K: Key>(entries: Seq<Entry<K>>, i: int)
    requires
        distinct(entries),
        0 <= i < entries.len(),
    ensures
        model(entries).contains_key(entries[i].key@),
        model(entries)[entries[i].key@] == entries[i].text@,
    decreases entries.len(),
{
    if i < entries.len() - 1 {
        let front = entries.drop_last();
        assert(front[i] == entries[i]);
        assert(distinct(front)) by {
            assert forall|a: int, b: int| 0 <= a < b < front.len() implies front[a].key@
                != front[b].key@ by {
                assert(front[a] == entries[a] && front[b] == entries[b]);
            }
        }
        lemma_model_at(front, i);
    }
}

proof fn lemma_model_size<K: Key>(entries: Seq<Entry<K>>)
    requires
        distinct(entries),
    ensures
        model(entries).dom().finite(),
        model(entries).dom().len() == entries.len(),
    decreases entries.len(),
{
    if entries.len() > 0 {
        let front = entries.drop_last();
        assert(distinct(front)) by {
            assert forall|a: int, b: int| 0 <= a < b < front.len() implies front[a].key@
                != front[b].key@ by {
                assert(front[a] == entries[a] && front[b] == entries[b]);
            }
        }
        lemma_model_size(front);
        lemma_model_keys(front, entries.last().key@);
        assert(!model(front).contains_key(entries.last().key@)) by {
            if model(front).contains_key(entries.last().key@) {
                let i = choose|i: int|
                    0 <= i < front.len() && (#[trigger] front[i]).key@ == entries.last().key@;
                assert(front[i] == entries[i]);
            }
        }
        assert(model(entries).dom() == model(front).dom().insert(entries.last().key@));
    }
}

proof fn lemma_model_update<K: Key>(entries: Seq<Entry<K>>, i: int, entry: Entry<K>)
    requires
        distinct(entries),
        0 <= i < entries.len(),
        entries[i].key@ == entry.key@,
    ensures
        distinct(entries.update(i, entry)),
        model(entries.update(i, entry)) == model(entries).insert(entry.key@, entry.text@),
    decreases entries.len(),
{
    let after = entries.update(i, entry);
    let front = entries.drop_last();
    assert(distinct(after)) by {
        assert forall|a: int, b: int| 0 <= a < b < after.len() implies after[a].key@
            != after[b].key@ by {
            assert(after[a].key@ == entries[a].key@ && after[b].key@ == entries[b].key@);
        }
    }
    if i == entries.len() - 1 {
        assert(after.drop_last() == front);
        assert(model(after) == model(entries).insert(entry.key@, entry.text@));
    } else {
        assert(distinct(front)) by {
            assert forall|a: int, b: int| 0 <= a < b < front.len() implies front[a].key@
                != front[b].key@ by {
                assert(front[a] == entries[a] && front[b] == entries[b]);
            }
        }
        assert(front[i] == entries[i]);
        lemma_model_update(front, i, entry);
        assert(after.drop_last() == front.update(i, entry));
        assert(after.last() == entries.last());
        assert(entries.last().key@ != entry.key@);
        assert(model(after) == model(entries).insert(entry.key@, entry.text@));
    }
}

/// A finite map from keys to texts.
pub struct Store<K: Key> {
    entries: Vec<Entry<K>>,
}

impl<K: Key> View for Store<K> {
    type V = Map<K::V, Seq<char>>;

    closed spec fn view(&self) -> Map<K::V, Seq<char>> {
        model(self.entries@)
    }
}

impl<K: Key> Store<K> {
    #[verifier::type_invariant]
    spec fn well_formed(&self) -> bool {
        distinct(self.entries@)
    }

    /// A store that holds nothing.
    pub fn new() -> (store: Self)
        ensures
            store@ == Map::<K::V, Seq<char>>::empty(),
    {
        Store { entries: Vec::new() }
    }

    /// The number of keys held.
    pub fn len(&self) -> (n: usize)
        ensures
            self@.dom().finite(),
            n == self@.len(),
    {
        proof {
            use_type_invariant(self);
            lemma_model_size(self.entries@);
        }
        self.entries.len()
    }

    fn position(&self, key: &K) -> (at: Option<usize>)
        ensures
            match at {
                Some(i) => i < self.entries.len() && self.entries[i as int].key@ == key@,
                None => !self@.contains_key(key@),
            },
    {
        let mut i: usize = 0;
        while i < self.entries.len()
            invariant
                i <= self.entries.len(),
                forall|j: int| 0 <= j < i ==> (#[trigger] self.entries[j]).key@ != key@,
            decreases self.entries.len() - i,
        {
            if self.entries[i].key.same(key) {
                return Some(i);
            }
            i += 1;
        }
        proof {
            lemma_model_keys(self.entries@, key@);
        }
        None
    }

    /// A copy of the text held for `key`, if the store holds one.
    pub fn get(&self, key: &K) -> (found: Option<String>)
        ensures
            match found {
                Some(text) => self@.contains_key(key@) && self@[key@] == text@,
                None => !self@.contains_key(key@),
            },
    {
        match self.position(key) {
            Some(i) => {
                proof {
                    use_type_invariant(self);
                    lemma_model_at(self.entries@, i as int);
                }
                Some(self.entries[i].text.clone())
            },
            None => None,
        }
    }

    /// Holds `text` for `key` from now on, in place of any text held for it
    /// before.
    pub fn insert(&mut self, key: K, text: String)
        ensures
            final(self)@ == old(self)@.insert(key@, text@),
    {
        proof {
            use_type_invariant(&*self);
        }
        let at = self.position(&key);
        let mut entries: Vec<Entry<K>> = Vec::new();
        core::mem::swap(&mut entries, &mut self.entries);
        let ghost before = entries@;
        let entry = Entry { key, text };
        match at {
            Some(i) => {
                proof {
                    lemma_model_update(before, i as int, entry);
                }
                entries.set(i, entry);
            },
            None => {
                proof {
                    lemma_model_keys(before, entry.key@);
                    assert(before.push(entry).drop_last() == before);
                    assert(distinct(before.push(entry))) by {
                        assert forall|a: int, b: int|
                            0 <= a < b < before.push(entry).len() implies before.push(
                            entry,
                        )[a].key@ != before.push(entry)[b].key@ by {
                            assert(before.push(entry)[a] == before[a]);
                            if b < before.len() {
                                assert(before.push(entry)[b] == before[b]);
                            }
                        }
                    }
                }
                entries.push(entry);
            },
        }
        core::mem::swap(&mut entries, &mut self.entries);
    }

    /// Forgets every key.
    pub fn clear(&mut self)
        ensures
            final(self)@ == Map::<K::V, Seq<char>>::empty(),
    {
        let mut entries: Vec<Entry<K>> = Vec::new();
        core::mem::swap(&mut entries, &mut self.entries);
    }
}

} // verus!
