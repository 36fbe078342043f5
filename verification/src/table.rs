//! A name-keyed table, the linker's map type.
//!
//! A [`Table`] stores its entries as a vector of `(name, value)` pairs with
//! pairwise-distinct names and is specified against the mathematical map
//! from name characters to values. Beyond lookup and insert-or-replace it
//! offers in-place mutation of one entry through a mutable borrow, which the
//! runtime uses to write static-field cells.

use vstd::prelude::*;

verus! {

/// Pairwise-distinct names.
pub open spec fn distinct_keys<T>(s: Seq<(String, T)>) -> bool {
    forall|a: int, b: int| 0 <= a < b < s.len() ==> s[a].0@ != s[b].0@
}

/// The mathematical map described by a sequence of `(name, value)` pairs;
/// on duplicate names the later pair wins.
pub open spec fn map_of<T>(s: Seq<(String, T)>) -> Map<Seq<char>, T>
    decreases s.len(),
{
    if s.len() == 0 {
        Map::<Seq<char>, T>::empty()
    } else {
        map_of(s.drop_last()).insert(s.last().0@, s.last().1)
    }
}

/// A key is in the map exactly when some pair carries it.
pub proof fn lemma_map_of_contains<T>(s: Seq<(String, T)>, k: Seq<char>)
    ensures
        map_of(s).contains_key(k) <==> exists|i: int| 0 <= i < s.len() && s[i].0@ == k,
    decreases s.len(),
{
    if s.len() > 0 {
        lemma_map_of_contains(s.drop_last(), k);
        if s.last().0@ == k {
            assert(s[s.len() - 1].0@ == k);
        } else if map_of(s).contains_key(k) {
            let i = choose|i: int| 0 <= i < s.drop_last().len() && s.drop_last()[i].0@ == k;
            assert(s[i].0@ == k);
        } else {
            assert forall|i: int| 0 <= i < s.len() implies s[i].0@ != k by {
                if i < s.len() - 1 {
                    assert(s.drop_last()[i].0@ != k);
                }
            }
        }
    }
}

/// With distinct names, the map sends the name of pair `i` to its value.
pub proof fn lemma_map_of_get<T>(s: Seq<(String, T)>, i: int)
    requires
        0 <= i < s.len(),
        forall|a: int, b: int| 0 <= a < b < s.len() ==> s[a].0@ != s[b].0@,
    ensures
        map_of(s).contains_key(s[i].0@),
        map_of(s)[s[i].0@] == s[i].1,
    decreases s.len(),
{
    if i == s.len() - 1 {
        assert(s.last() == s[i]);
    } else {
        lemma_map_of_get(s.drop_last(), i);
        assert(s.drop_last()[i] == s[i]);
        assert(s.last().0@ != s[i].0@);
    }
}

/// Replacing the value of pair `i` (keeping its name, possibly as another
/// `String` with the same characters) updates exactly that key.
pub proof fn lemma_map_of_update<T>(s: Seq<(String, T)>, i: int, key: String, value: T)
    requires
        0 <= i < s.len(),
        key@ == s[i].0@,
        forall|a: int, b: int| 0 <= a < b < s.len() ==> s[a].0@ != s[b].0@,
    ensures
        map_of(s.update(i, (key, value))) == map_of(s).insert(key@, value),
    decreases s.len(),
{
    let s2 = s.update(i, (key, value));
    if i == s.len() - 1 {
        assert(s2.drop_last() =~= s.drop_last());
        assert(s2.last() == (key, value));
        assert(map_of(s2) =~= map_of(s).insert(key@, value));
    } else {
        lemma_map_of_update(s.drop_last(), i, key, value);
        assert(s2.drop_last() =~= s.drop_last().update(i, (key, value)));
        assert(s2.last() == s.last());
        assert(s.last().0@ != key@);
        assert(map_of(s2) =~= map_of(s).insert(key@, value));
    }
}

/// Appending a pair updates exactly its key.
pub proof fn lemma_map_of_push<T>(s: Seq<(String, T)>, key: String, value: T)
    ensures
        map_of(s.push((key, value))) == map_of(s).insert(key@, value),
{
    let s2 = s.push((key, value));
    assert(s2.drop_last() =~= s);
    assert(s2.last() == (key, value));
    assert(map_of(s2) =~= map_of(s).insert(key@, value));
}

/// With distinct names, the table and its map have the same size.
pub proof fn lemma_map_of_len<T>(s: Seq<(String, T)>)
    requires
        forall|a: int, b: int| 0 <= a < b < s.len() ==> s[a].0@ != s[b].0@,
    ensures
        map_of(s).dom().finite(),
        map_of(s).len() == s.len(),
    decreases s.len(),
{
    if s.len() > 0 {
        lemma_map_of_len(s.drop_last());
        lemma_map_of_contains(s.drop_last(), s.last().0@);
        assert forall|i: int| 0 <= i < s.drop_last().len() implies s.drop_last()[i].0@ != s.last().0@
        by {
            assert(s[i].0@ != s[s.len() - 1].0@);
        }
        assert(!map_of(s.drop_last()).contains_key(s.last().0@));
        assert(map_of(s).dom() =~= map_of(s.drop_last()).dom().insert(s.last().0@));
        vstd::set::axiom_set_insert_len(map_of(s.drop_last()).dom(), s.last().0@);
    }
}

/// A table from names to values, backed by a vector of pairs with
/// pairwise-distinct names.
pub struct Table<T> {
    entries: Vec<(String, T)>,
}

impl<T> View for Table<T> {
    type V = Map<Seq<char>, T>;

    closed spec fn view(&self) -> Map<Seq<char>, T> {
        map_of(self.entries@)
    }
}

impl<T> Table<T> {
    /// Distinct names, the representation invariant every method keeps.
    pub closed spec fn wf(self) -> bool {
        distinct_keys(self.entries@)
    }

    pub fn new() -> (r: Table<T>)
        ensures
            r@ == Map::<Seq<char>, T>::empty(),
            r.wf(),
    {
        Table { entries: Vec::new() }
    }

    pub fn len(&self) -> (r: usize)
        requires
            self.wf(),
        ensures
            r == self@.len(),
            self@.dom().finite(),
    {
        proof {
            lemma_map_of_len(self.entries@);
        }
        self.entries.len()
    }

    /// The index of the pair carrying `key`, if one does.
    fn position(&self, key: &String) -> (r: Option<usize>)
        ensures
            match r {
                Some(i) => i < self.entries@.len() && self.entries@[i as int].0@ == key@,
                None => forall|i: int| 0 <= i < self.entries@.len() ==> self.entries@[i].0@
                    != key@,
            },
    {
        let mut i: usize = 0;
        let n = self.entries.len();
        while i < n
            invariant
                i <= n,
                n == self.entries@.len(),
                forall|j: int| 0 <= j < i ==> self.entries@[j].0@ != key@,
            decreases n - i,
        {
            if self.entries[i].0.eq(key) {
                return Some(i);
            }
            i = i + 1;
        }
        None
    }

    pub fn contains_key(&self, key: &String) -> (r: bool)
        ensures
            r == self@.contains_key(key@),
    {
        proof {
            lemma_map_of_contains(self.entries@, key@);
        }
        match self.position(key) {
            Some(_) => true,
            None => false,
        }
    }

    pub fn get<'a>(&'a self, key: &String) -> (r: Option<&'a T>)
        requires
            self.wf(),
        ensures
            match r {
                Some(v) => self@.contains_key(key@) && *v == self@[key@],
                None => !self@.contains_key(key@),
            },
    {
        proof {
            lemma_map_of_contains(self.entries@, key@);
        }
        match self.position(key) {
            Some(i) => {
                proof {
                    lemma_map_of_get(self.entries@, i as int);
                }
                Some(&self.entries[i].1)
            },
            None => None,
        }
    }

    /// Inserts `value` under `key`, replacing any pair that carried it.
    pub fn insert(&mut self, key: String, value: T)
        requires
            old(self).wf(),
        ensures
            final(self).wf(),
            final(self)@ == old(self)@.insert(key@, value),
    {
        let ghost s0 = self.entries@;
        match self.position(&key) {
            Some(i) => {
                proof {
                    lemma_map_of_update(s0, i as int, key, value);
                }
                let e = &mut self.entries[i];
                *e = (key, value);
                proof {
                    assert(self.entries@ =~= s0.update(i as int, (key, value)));
                    assert forall|a: int, b: int|
                        0 <= a < b < self.entries@.len() implies self.entries@[a].0@
                        != self.entries@[b].0@ by {
                        assert(self.entries@[a].0@ == s0[a].0@);
                        assert(self.entries@[b].0@ == s0[b].0@);
                    }
                }
            },
            None => {
                proof {
                    lemma_map_of_push(s0, key, value);
                }
                self.entries.push((key, value));
                proof {
                    assert forall|a: int, b: int|
                        0 <= a < b < self.entries@.len() implies self.entries@[a].0@
                        != self.entries@[b].0@ by {
                        if b < s0.len() {
                            assert(s0[a].0@ != s0[b].0@);
                        } else {
                            assert(self.entries@[b].0@ == key@);
                            assert(s0[a].0@ != key@);
                        }
                    }
                }
            },
        }
    }

    /// A mutable borrow of the value under `key`, which the caller knows is
    /// present. Whatever the caller leaves in the borrow is what the table
    /// then maps `key` to.
    pub fn get_mut_known<'a>(&'a mut self, key: &String) -> (r: &'a mut T)
        requires
            old(self).wf(),
            old(self)@.contains_key(key@),
        ensures
            *r == old(self)@[key@],
            final(self)@ == old(self)@.insert(key@, *final(r)),
            final(self).wf(),
    {
        let ghost s0 = self.entries@;
        proof {
            lemma_map_of_contains(s0, key@);
        }
        let idx = match self.position(key) {
            Some(i) => i,
            None => {
                // The key is present, so `position` cannot miss.
                proof {
                    assert(false);
                }
                0
            },
        };
        proof {
            lemma_map_of_get(s0, idx as int);
            assert forall|x: T|
                map_of(#[trigger] s0.update(idx as int, (s0[idx as int].0, x))) == map_of(
                    s0,
                ).insert(key@, x) by {
                lemma_map_of_update(s0, idx as int, s0[idx as int].0, x);
            }
            assert forall|x: T|
                #[trigger] distinct_keys(s0.update(idx as int, (s0[idx as int].0, x))) by {
                let s2 = s0.update(idx as int, (s0[idx as int].0, x));
                assert forall|a: int, b: int| 0 <= a < b < s2.len() implies s2[a].0@ != s2[b].0@
                by {
                    assert(s2[a].0@ == s0[a].0@);
                    assert(s2[b].0@ == s0[b].0@);
                }
            }
        }
        let e = &mut self.entries[idx];
        &mut e.1
    }
}

} // verus!
