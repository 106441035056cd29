//! A small map from strings to values, kept in two vectors and modelled as
//! a finite `Map` from the keys' characters.
use vstd::prelude::*;
use vstd::string::*;
use crate::model::strings_view;
use crate::text::str_eq;

verus! {

pub struct StrMap<V> {
    keys: Vec<String>,
    values: Vec<V>,
}

/// In a sequence without duplicates, looking an element up gives back its
/// own index.
pub proof fn lemma_index_of_unique(s: Seq<Seq<char>>, i: int)
    requires
        s.no_duplicates(),
        0 <= i < s.len(),
    ensures
        s.contains(s[i]),
        s.index_of(s[i]) == i,
{
    let j = s.index_of(s[i]);
    assert(0 <= j < s.len() && s[j] == s[i]);
}

impl<V> View for StrMap<V> {
    type V = Map<Seq<char>, V>;

    closed spec fn view(&self) -> Map<Seq<char>, V> {
        Map::new(
            |k: Seq<char>| strings_view(self.keys@).contains(k),
            |k: Seq<char>| self.values@[strings_view(self.keys@).index_of(k)],
        )
    }
}

impl<V> StrMap<V> {
    /// Every key has a value, and no key occurs twice.
    pub closed spec fn wf(&self) -> bool {
        &&& self.keys.len() == self.values.len()
        &&& strings_view(self.keys@).no_duplicates()
    }

    /// The number of entries.
    pub closed spec fn len_spec(&self) -> nat {
        self.keys.len() as nat
    }

    /// The key of the `i`-th entry.
    pub closed spec fn key_spec(&self, i: int) -> Seq<char> {
        self.keys@[i]@
    }

    /// The value of the `i`-th entry.
    pub closed spec fn value_spec(&self, i: int) -> V {
        self.values@[i]
    }

    /// How the entries, taken by index, make up the map.
    pub proof fn lemma_entries(&self)
        requires
            self.wf(),
        ensures
            self@.dom().finite(),
            self@.dom().len() == self.len_spec(),
            forall|i: int|
                0 <= i < self.len_spec() ==> self@.contains_key(#[trigger] self.key_spec(i))
                    && self@[self.key_spec(i)] == self.value_spec(i),
            forall|k: Seq<char>| #[trigger]
                self@.contains_key(k) ==> exists|i: int|
                    0 <= i < self.len_spec() && self.key_spec(i) == k,
            forall|i: int, j: int|
                0 <= i < self.len_spec() && 0 <= j < self.len_spec() && i != j
                    ==> #[trigger] self.key_spec(i) != #[trigger] self.key_spec(j),
    {
        let ks = strings_view(self.keys@);
        assert(self@.dom() =~= ks.to_set());
        ks.unique_seq_to_set();
        assert forall|i: int| 0 <= i < self.len_spec() implies self@.contains_key(
            #[trigger] self.key_spec(i),
        ) && self@[self.key_spec(i)] == self.value_spec(i) by {
            assert(ks[i] == self.key_spec(i));
            lemma_index_of_unique(ks, i);
        }
        assert forall|k: Seq<char>| #[trigger] self@.contains_key(k) implies exists|i: int|
            0 <= i < self.len_spec() && self.key_spec(i) == k by {
            let i = ks.index_of(k);
            assert(0 <= i < ks.len() && ks[i] == k);
            assert(self.key_spec(i) == k);
        }
        assert forall|i: int, j: int|
            0 <= i < self.len_spec() && 0 <= j < self.len_spec() && i != j implies #[trigger] self.key_spec(
            i,
        ) != #[trigger] self.key_spec(j) by {
            assert(ks[i] == self.key_spec(i));
            assert(ks[j] == self.key_spec(j));
        }
    }

    pub fn new() -> (m: StrMap<V>)
        ensures
            m.wf(),
            m@ == Map::<Seq<char>, V>::empty(),
            m.len_spec() == 0,
    {
        let m = StrMap { keys: Vec::new(), values: Vec::new() };
        assert(m@ =~= Map::<Seq<char>, V>::empty());
        m
    }

    pub fn len(&self) -> (n: usize)
        requires
            self.wf(),
        ensures
            n == self.len_spec(),
            n == self@.dom().len(),
    {
        proof {
            self.lemma_entries();
        }
        self.keys.len()
    }

    /// The index of the entry for `key`.
    pub fn position(&self, key: &str) -> (r: Option<usize>)
        requires
            self.wf(),
        ensures
            match r {
                Some(i) => i < self.len_spec() && self.key_spec(i as int) == key@
                    && self@.contains_key(key@) && self@[key@] == self.value_spec(i as int),
                None => !self@.contains_key(key@),
            },
    {
        let ghost ks = strings_view(self.keys@);
        let mut i: usize = 0;
        while i < self.keys.len()
            invariant
                i <= self.keys.len(),
                self.wf(),
                ks == strings_view(self.keys@),
                forall|j: int| 0 <= j < i ==> ks[j] != key@,
            decreases self.keys.len() - i,
        {
            if str_eq(self.keys[i].as_str(), key) {
                proof {
                    assert(ks[i as int] == key@);
                    lemma_index_of_unique(ks, i as int);
                }
                return Some(i);
            }
            i += 1;
        }
        None
    }

    pub fn contains_key(&self, key: &str) -> (b: bool)
        requires
            self.wf(),
        ensures
            b == self@.contains_key(key@),
    {
        self.position(key).is_some()
    }

    pub fn get(&self, key: &str) -> (r: Option<&V>)
        requires
            self.wf(),
        ensures
            match r {
                Some(v) => self@.contains_key(key@) && *v == self@[key@],
                None => !self@.contains_key(key@),
            },
    {
        match self.position(key) {
            Some(i) => Some(&self.values[i]),
            None => None,
        }
    }

    pub fn key_at(&self, i: usize) -> (k: &String)
        requires
            self.wf(),
            i < self.len_spec(),
        ensures
            k@ == self.key_spec(i as int),
    {
        &self.keys[i]
    }

    pub fn value_at(&self, i: usize) -> (v: &V)
        requires
            self.wf(),
            i < self.len_spec(),
        ensures
            *v == self.value_spec(i as int),
    {
        &self.values[i]
    }

    /// Sets the value for `key`, adding the key when it is new.
    pub fn insert(&mut self, key: String, value: V)
        requires
            old(self).wf(),
        ensures
            final(self).wf(),
            final(self)@ == old(self)@.insert(key@, value),
    {
        let ghost ks = strings_view(self.keys@);
        match self.position(key.as_str()) {
            Some(i) => {
                self.values.push(value);
                self.values.swap_remove(i);
                proof {
                    assert(self.values@ =~= old(self).values@.update(i as int, value));
                    lemma_index_of_unique(ks, i as int);
                    assert forall|k: Seq<char>| #[trigger] ks.contains(k) && k != key@ implies ks.index_of(k)
                        != i by {
                        let j = ks.index_of(k);
                        assert(0 <= j < ks.len() && ks[j] == k);
                    }
                    assert(self@ =~= old(self)@.insert(key@, value));
                }
            },
            None => {
                self.keys.push(key);
                self.values.push(value);
                proof {
                    let ks2 = strings_view(self.keys@);
                    assert(ks2 =~= ks.push(key@));
                    assert(ks2.no_duplicates());
                    lemma_index_of_unique(ks2, ks.len() as int);
                    assert forall|k: Seq<char>| #[trigger] ks.contains(k) implies ks2.contains(k)
                        && ks2.index_of(k) == ks.index_of(k) by {
                        let j = ks.index_of(k);
                        assert(0 <= j < ks.len() && ks[j] == k);
                        assert(ks2[j] == k);
                        lemma_index_of_unique(ks2, j);
                    }
                    assert forall|k: Seq<char>| #[trigger] ks2.contains(k) && k != key@ implies ks.contains(
                        k,
                    ) by {
                        let j = ks2.index_of(k);
                        assert(0 <= j < ks2.len() && ks2[j] == k);
                        assert(ks[j] == k);
                    }
                    assert(self@ =~= old(self)@.insert(key@, value));
                }
            },
        }
    }

    /// Removes the `i`-th entry; the last entry takes its place.
    pub fn remove_at(&mut self, i: usize) -> (entry: (String, V))
        requires
            old(self).wf(),
            i < old(self).len_spec(),
        ensures
            final(self).wf(),
            entry.0@ == old(self).key_spec(i as int),
            entry.1 == old(self).value_spec(i as int),
            final(self)@ == old(self)@.remove(old(self).key_spec(i as int)),
            final(self).len_spec() == old(self).len_spec() - 1,
            forall|j: int|
                0 <= j < final(self).len_spec() && j != i ==> #[trigger] final(self).key_spec(j)
                    == old(self).key_spec(j),
            forall|j: int|
                0 <= j < final(self).len_spec() && j != i ==> #[trigger] final(self).value_spec(j)
                    == old(self).value_spec(j),
            i < final(self).len_spec() ==> final(self).key_spec(i as int) == old(self).key_spec(
                old(self).len_spec() - 1,
            ) && final(self).value_spec(i as int) == old(self).value_spec(
                old(self).len_spec() - 1,
            ),
    {
        let ghost ks = strings_view(self.keys@);
        let ghost last = self.keys.len() - 1;
        let key = self.keys.swap_remove(i);
        let value = self.values.swap_remove(i);
        proof {
            let ks2 = strings_view(self.keys@);
            assert(ks2 =~= ks.update(i as int, ks[last]).drop_last());
            assert forall|a: int, b: int| 0 <= a < ks2.len() && 0 <= b < ks2.len() && a != b implies ks2[a]
                != ks2[b] by {
                let a0 = if a == i { last } else { a };
                let b0 = if b == i { last } else { b };
                assert(ks2[a] == ks[a0] && ks2[b] == ks[b0]);
            }
            assert forall|k: Seq<char>| #[trigger] ks2.contains(k) implies ks.contains(k) && k != ks[i as int]
                && self.values@[ks2.index_of(k)] == old(self).values@[ks.index_of(k)] by {
                let j = ks2.index_of(k);
                assert(0 <= j < ks2.len() && ks2[j] == k);
                let j0 = if j == i { last } else { j };
                assert(ks[j0] == k);
                lemma_index_of_unique(ks, j0);
            }
            assert forall|k: Seq<char>| #[trigger] ks.contains(k) && k != ks[i as int] implies ks2.contains(
                k,
            ) by {
                let j0 = ks.index_of(k);
                assert(0 <= j0 < ks.len() && ks[j0] == k);
                let j = if j0 == last { i as int } else { j0 };
                assert(ks2[j] == k);
            }
            assert(self@ =~= old(self)@.remove(old(self).key_spec(i as int)));
        }
        (key, value)
    }

    /// Removes the entry for `key` and hands out its value.
    pub fn remove(&mut self, key: &str) -> (r: Option<V>)
        requires
            old(self).wf(),
        ensures
            final(self).wf(),
            final(self)@ == old(self)@.remove(key@),
            match r {
                Some(v) => old(self)@.contains_key(key@) && v == old(self)@[key@],
                None => !old(self)@.contains_key(key@),
            },
    {
        match self.position(key) {
            Some(i) => {
                let (_, value) = self.remove_at(i);
                Some(value)
            },
            None => {
                assert(self@ =~= old(self)@.remove(key@));
                None
            },
        }
    }
}

} // verus!
