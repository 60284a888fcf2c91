//! A table from text keys to values, as both stores offer it: every key is
//! held at most once.

use vstd::prelude::*;

verus! {

/// Whether some entry has the key.
spec fn has_key<V>(entries: Seq<(String, V)>, key: Seq<char>) -> bool {
    exists|i: int| 0 <= i < entries.len() && (#[trigger] entries[i]).0@ == key
}

/// The place of an entry with the key.
spec fn position<V>(entries: Seq<(String, V)>, key: Seq<char>) -> int {
    choose|i: int| 0 <= i < entries.len() && (#[trigger] entries[i]).0@ == key
}

/// Whether no two entries share a key.
spec fn distinct_keys<V>(entries: Seq<(String, V)>) -> bool {
    forall|i: int, j: int|
        0 <= i < j < entries.len() ==> (#[trigger] entries[i]).0@ != (#[trigger] entries[j]).0@
}

/// The map that the entries stand for.
spec fn table<V>(entries: Seq<(String, V)>) -> Map<Seq<char>, V> {
    Map::new(
        |key: Seq<char>| has_key(entries, key),
        |key: Seq<char>| entries[position(entries, key)].1,
    )
}

proof fn lemma_position<V>(entries: Seq<(String, V)>, i: int)
    requires
        distinct_keys(entries),
        0 <= i < entries.len(),
    ensures
        has_key(entries, entries[i].0@),
        position(entries, entries[i].0@) == i,
        table(entries).contains_key(entries[i].0@),
        table(entries)[entries[i].0@] == entries[i].1,
{
    let key = entries[i].0@;
    assert(has_key(entries, key));
    let p = position(entries, key);
    assert(0 <= p < entries.len() && entries[p].0@ == key);
    if p < i {
        assert(entries[p].0@ != entries[i].0@);
    } else if i < p {
        assert(entries[i].0@ != entries[p].0@);
    }
}

proof fn lemma_push<V>(entries: Seq<(String, V)>, key: String, value: V)
    requires
        distinct_keys(entries),
        !has_key(entries, key@),
    ensures
        distinct_keys(entries.push((key, value))),
        table(entries.push((key, value))) == table(entries).insert(key@, value),
{
    let after = entries.push((key, value));
    assert forall|i: int, j: int| 0 <= i < j < after.len() implies
        (#[trigger] after[i]).0@ != (#[trigger] after[j]).0@ by {
        if j == entries.len() {
            assert(after[i] == entries[i]);
            assert(entries[i].0@ != key@);
        } else {
            assert(after[i] == entries[i]);
            assert(after[j] == entries[j]);
        }
    }
    assert forall|k: Seq<char>| has_key(after, k) <==> (k == key@ || has_key(entries, k)) by {
        if has_key(after, k) {
            let i = position(after, k);
            if i < entries.len() {
                assert(entries[i] == after[i]);
            }
        }
        if k == key@ {
            assert(after[entries.len() as int].0@ == k);
        }
        if has_key(entries, k) {
            let i = position(entries, k);
            assert(after[i] == entries[i]);
        }
    }
    assert forall|k: Seq<char>| has_key(after, k) implies
        #[trigger] table(after)[k] == table(entries).insert(key@, value)[k] by {
        let i = position(after, k);
        lemma_position(after, i);
        if i < entries.len() {
            assert(after[i] == entries[i]);
            lemma_position(entries, i);
        }
    }
    assert(table(after) =~= table(entries).insert(key@, value));
}

proof fn lemma_remove<V>(entries: Seq<(String, V)>, i: int)
    requires
        distinct_keys(entries),
        0 <= i < entries.len(),
    ensures
        distinct_keys(entries.remove(i)),
        !has_key(entries.remove(i), entries[i].0@),
        table(entries.remove(i)) == table(entries).remove(entries[i].0@),
{
    let after = entries.remove(i);
    let key = entries[i].0@;
    assert forall|a: int| 0 <= a < after.len() implies
        #[trigger] after[a] == entries[if a < i { a } else { a + 1 }] by {}
    assert forall|a: int, b: int| 0 <= a < b < after.len() implies
        (#[trigger] after[a]).0@ != (#[trigger] after[b]).0@ by {
        let a0 = if a < i { a } else { a + 1 };
        let b0 = if b < i { b } else { b + 1 };
        assert(after[a] == entries[a0]);
        assert(after[b] == entries[b0]);
        assert(entries[a0].0@ != entries[b0].0@);
    }
    assert forall|k: Seq<char>| has_key(after, k) <==> (k != key && has_key(entries, k)) by {
        if has_key(after, k) {
            let a = position(after, k);
            let a0 = if a < i { a } else { a + 1 };
            assert(after[a] == entries[a0]);
            if a0 < i {
                assert(entries[a0].0@ != entries[i].0@);
            } else {
                assert(entries[i].0@ != entries[a0].0@);
            }
        }
        if k != key && has_key(entries, k) {
            let j = position(entries, k);
            let a = if j < i { j } else { j - 1 };
            assert(after[a] == entries[j]);
        }
    }
    assert forall|k: Seq<char>| has_key(after, k) implies
        #[trigger] table(after)[k] == table(entries).remove(key)[k] by {
        let a = position(after, k);
        let a0 = if a < i { a } else { a + 1 };
        lemma_position(after, a);
        assert(after[a] == entries[a0]);
        lemma_position(entries, a0);
    }
    assert(table(after) =~= table(entries).remove(key));
}

/// A table from text keys to values.
pub struct Registry<V> {
    entries: Vec<(String, V)>,
}

impl<V> View for Registry<V> {
    type V = Map<Seq<char>, V>;

    closed spec fn view(&self) -> Map<Seq<char>, V> {
        table(self.entries@)
    }
}

impl<V> Registry<V> {
    #[verifier::type_invariant]
    spec fn well_formed(&self) -> bool {
        distinct_keys(self.entries@)
    }

    /// A table without entries.
    pub fn new() -> (r: Self)
        ensures
            r@ == Map::<Seq<char>, V>::empty(),
    {
        let r = Registry { entries: Vec::new() };
        assert(r@ =~= Map::<Seq<char>, V>::empty());
        r
    }

    fn find(&self, key: &String) -> (r: Option<usize>)
        ensures
            match r {
                Some(i) => i < self.entries@.len() && self.entries@[i as int].0@ == key@,
                None => !has_key(self.entries@, key@),
            },
    {
        let mut i: usize = 0;
        while i < self.entries.len()
            invariant
                i <= self.entries@.len(),
                forall|j: int| 0 <= j < i ==> (#[trigger] self.entries@[j]).0@ != key@,
            decreases self.entries@.len() - i,
        {
            if self.entries[i].0 == *key {
                return Some(i);
            }
            i += 1;
        }
        None
    }

    /// Whether the table holds the key.
    pub fn contains(&self, key: &String) -> (r: bool)
        ensures
            r == self@.contains_key(key@),
    {
        match self.find(key) {
            Some(i) => {
                assert(has_key(self.entries@, key@));
                true
            },
            None => false,
        }
    }

    /// The value under the key, if the table holds it.
    pub fn get(&self, key: &String) -> (r: Option<&V>)
        ensures
            match r {
                Some(v) => self@.contains_key(key@) && *v == self@[key@],
                None => !self@.contains_key(key@),
            },
    {
        proof {
            use_type_invariant(self);
        }
        match self.find(key) {
            Some(i) => {
                proof {
                    lemma_position(self.entries@, i as int);
                }
                Some(&self.entries[i].1)
            },
            None => None,
        }
    }

    /// Puts the value under the key, in place of what was there.
    pub fn put(&mut self, key: String, value: V)
        ensures
            final(self)@ == old(self)@.insert(key@, value),
    {
        proof {
            use_type_invariant(&*self);
        }
        match self.find(&key) {
            Some(i) => {
                proof {
                    lemma_remove(self.entries@, i as int);
                    lemma_push(self.entries@.remove(i as int), key, value);
                    assert(self@.remove(key@).insert(key@, value) =~= self@.insert(key@, value));
                }
                let mut entries: Vec<(String, V)> = Vec::new();
                core::mem::swap(&mut self.entries, &mut entries);
                entries.remove(i);
                entries.push((key, value));
                core::mem::swap(&mut self.entries, &mut entries);
            },
            None => {
                proof {
                    lemma_push(self.entries@, key, value);
                }
                let mut entries: Vec<(String, V)> = Vec::new();
                core::mem::swap(&mut self.entries, &mut entries);
                entries.push((key, value));
                core::mem::swap(&mut self.entries, &mut entries);
            },
        }
    }

    /// Takes the key and its value out of the table.
    pub fn remove(&mut self, key: &String) -> (r: Option<V>)
        ensures
            final(self)@ == old(self)@.remove(key@),
            r == if old(self)@.contains_key(key@) {
                Some(old(self)@[key@])
            } else {
                None::<V>
            },
    {
        proof {
            use_type_invariant(&*self);
        }
        match self.find(key) {
            Some(i) => {
                proof {
                    lemma_position(self.entries@, i as int);
                    lemma_remove(self.entries@, i as int);
                }
                let mut entries: Vec<(String, V)> = Vec::new();
                core::mem::swap(&mut self.entries, &mut entries);
                let entry = entries.remove(i);
                core::mem::swap(&mut self.entries, &mut entries);
                Some(entry.1)
            },
            None => {
                assert(self@.remove(key@) =~= self@);
                None
            },
        }
    }
}

} // verus!
