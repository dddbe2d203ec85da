//! A small name-to-value table backed by a vector of entries, abstracted as
//! a `Map` from name characters to the value's view. Buckets use one table
//! for the files of a directory and a table of tables for sub-directories.

use vstd::prelude::*;

use crate::model::view_seq;

verus! {

/// The keys of an entry list, as character sequences, in entry order.
pub open spec fn key_seq<T>(s: Seq<(String, T)>) -> Seq<Seq<char>> {
    s.map_values(|p: (String, T)| p.0@)
}

/// No two entries share a key.
pub open spec fn distinct_keys<T>(s: Seq<(String, T)>) -> bool {
    forall|i: int, j: int| 0 <= i < j < s.len() ==> s[i].0@ != s[j].0@
}

/// The map abstraction of an entry list; with distinct keys the fold order
/// never matters.
pub open spec fn entry_map<T: View>(s: Seq<(String, T)>) -> Map<Seq<char>, T::V>
    decreases s.len(),
{
    if s.len() == 0 {
        Map::empty()
    } else {
        entry_map(s.drop_last()).insert(s.last().0@, s.last().1@)
    }
}

proof fn lemma_entry_absent<T: View>(s: Seq<(String, T)>, k: Seq<char>)
    requires
        forall|j: int| 0 <= j < s.len() ==> s[j].0@ != k,
    ensures
        !entry_map(s).contains_key(k),
    decreases s.len(),
{
    if s.len() > 0 {
        lemma_entry_absent(s.drop_last(), k);
    }
}

proof fn lemma_entry_lookup<T: View>(s: Seq<(String, T)>, i: int)
    requires
        distinct_keys(s),
        0 <= i < s.len(),
    ensures
        entry_map(s).contains_key(s[i].0@),
        entry_map(s)[s[i].0@] == s[i].1@,
    decreases s.len(),
{
    if i < s.len() - 1 {
        lemma_entry_lookup(s.drop_last(), i);
    }
}

proof fn lemma_entry_dom<T: View>(s: Seq<(String, T)>, k: Seq<char>)
    ensures
        entry_map(s).contains_key(k) <==> key_seq(s).contains(k),
    decreases s.len(),
{
    if s.len() == 0 {
        assert(!key_seq(s).contains(k));
    } else {
        lemma_entry_dom(s.drop_last(), k);
        if s.last().0@ == k {
            assert(key_seq(s)[s.len() - 1] == k);
        } else {
            if key_seq(s.drop_last()).contains(k) {
                let j = choose|j: int|
                    0 <= j < s.len() - 1 && key_seq(s.drop_last())[j] == k;
                assert(key_seq(s)[j] == k);
            }
            if key_seq(s).contains(k) {
                let j = choose|j: int| 0 <= j < s.len() && key_seq(s)[j] == k;
                assert(key_seq(s.drop_last())[j] == k);
            }
        }
    }
}

proof fn lemma_entry_remove<T: View>(s: Seq<(String, T)>, i: int)
    requires
        distinct_keys(s),
        0 <= i < s.len(),
    ensures
        entry_map(s.remove(i)) == entry_map(s).remove(s[i].0@),
        distinct_keys(s.remove(i)),
    decreases s.len(),
{
    s.remove_ensures(i);
    assert(distinct_keys(s.remove(i)));
    if i == s.len() - 1 {
        assert(s.remove(i) =~= s.drop_last());
        assert(forall|j: int| 0 <= j < s.len() - 1 ==> s.drop_last()[j].0@ != s[i].0@);
        lemma_entry_absent(s.drop_last(), s[i].0@);
        assert(entry_map(s.drop_last()).insert(s[i].0@, s[i].1@).remove(s[i].0@)
            =~= entry_map(s.drop_last()));
    } else {
        assert(s.remove(i).drop_last() =~= s.drop_last().remove(i));
        assert(s.remove(i).last() == s.last());
        lemma_entry_remove(s.drop_last(), i);
        assert(entry_map(s.drop_last()).remove(s[i].0@).insert(s.last().0@, s.last().1@)
            =~= entry_map(s.drop_last()).insert(s.last().0@, s.last().1@).remove(s[i].0@));
    }
}

proof fn lemma_entry_push<T: View>(s: Seq<(String, T)>, p: (String, T))
    ensures
        entry_map(s.push(p)) == entry_map(s).insert(p.0@, p.1@),
{
    assert(s.push(p).drop_last() =~= s);
    assert(s.push(p).last() == p);
}

/// A table of named values with distinct names. Its view is the map from
/// each name's characters to its value's view.
pub struct Table<T> {
    entries: Vec<(String, T)>,
}

impl<T: View> View for Table<T> {
    type V = Map<Seq<char>, T::V>;

    closed spec fn view(&self) -> Map<Seq<char>, T::V> {
        entry_map(self.entries@)
    }
}

impl<T: View> Table<T> {
    /// The names are pairwise distinct.
    pub closed spec fn wf(self) -> bool {
        distinct_keys(self.entries@)
    }

    /// The values held, in entry order.
    pub closed spec fn vals(self) -> Seq<T> {
        self.entries@.map_values(|p: (String, T)| p.1)
    }

    /// The names held, in entry order.
    pub closed spec fn key_list(self) -> Seq<Seq<char>> {
        key_seq(self.entries@)
    }

    /// A name stands in the key list exactly when the map contains it, and
    /// a well-formed table lists each name once.
    pub proof fn lemma_key_list(self)
        requires
            self.wf(),
        ensures
            self.key_list().no_duplicates(),
            forall|k: Seq<char>| self.key_list().contains(k) <==> self@.contains_key(k),
    {
        assert forall|k: Seq<char>| self.key_list().contains(k) <==> self@.contains_key(k) by {
            lemma_entry_dom(self.entries@, k);
        }
    }

    /// An empty table.
    pub fn new() -> (r: Self)
        ensures
            r.wf(),
            r@ == Map::<Seq<char>, T::V>::empty(),
            r.vals() == Seq::<T>::empty(),
    {
        let r = Table { entries: Vec::new() };
        proof {
            assert(r.vals() =~= Seq::<T>::empty());
        }
        r
    }

    fn find_idx(&self, key: &String) -> (r: Option<usize>)
        ensures
            match r {
                Some(i) => i < self.entries@.len() && self.entries@[i as int].0@ == key@,
                None => forall|j: int| 0 <= j < self.entries@.len() ==> self.entries@[j].0@ != key@,
            },
    {
        let n = self.entries.len();
        let mut i: usize = 0;
        while i < n
            invariant
                n == self.entries@.len(),
                i <= n,
                forall|j: int| 0 <= j < i ==> self.entries@[j].0@ != key@,
            decreases n - i,
        {
            if self.entries[i].0 == *key {
                return Some(i);
            }
            i = i + 1;
        }
        None
    }

    /// Whether a value stands under this name.
    pub fn contains(&self, key: &String) -> (r: bool)
        requires
            self.wf(),
        ensures
            r == self@.contains_key(key@),
    {
        match self.find_idx(key) {
            Some(i) => {
                proof {
                    lemma_entry_lookup(self.entries@, i as int);
                }
                true
            },
            None => {
                proof {
                    lemma_entry_absent(self.entries@, key@);
                }
                false
            },
        }
    }

    /// The value under this name, if any.
    pub fn get<'a>(&'a self, key: &String) -> (r: Option<&'a T>)
        requires
            self.wf(),
        ensures
            match r {
                Some(v) => self@.contains_key(key@) && v@ == self@[key@]
                    && self.vals().contains(*v),
                None => !self@.contains_key(key@),
            },
    {
        match self.find_idx(key) {
            Some(i) => {
                proof {
                    lemma_entry_lookup(self.entries@, i as int);
                    assert(self.vals()[i as int] == self.entries@[i as int].1);
                }
                Some(&self.entries[i].1)
            },
            None => {
                proof {
                    lemma_entry_absent(self.entries@, key@);
                }
                None
            },
        }
    }

    /// Sets the value under a name, replacing any previous one.
    pub fn upsert(&mut self, key: String, value: T)
        requires
            old(self).wf(),
        ensures
            final(self).wf(),
            final(self)@ == old(self)@.insert(key@, value@),
            forall|j: int| 0 <= j < final(self).vals().len() ==>
                old(self).vals().contains(#[trigger] final(self).vals()[j])
                || final(self).vals()[j] == value,
    {
        let ghost s0 = self.entries@;
        match self.find_idx(&key) {
            Some(i) => {
                self.entries.remove(i);
                proof {
                    lemma_entry_remove(s0, i as int);
                }
            },
            None => {
                proof {
                    lemma_entry_absent(s0, key@);
                }
            },
        }
        let ghost s1 = self.entries@;
        proof {
            assert(entry_map(s1) == entry_map(s0).remove(key@) || entry_map(s1) == entry_map(s0));
            assert(forall|j: int| 0 <= j < s1.len() ==> s0.contains(#[trigger] s1[j]));
            assert(forall|j: int| 0 <= j < s1.len() ==> (#[trigger] s1[j]).0@ != key@);
        }
        self.entries.push((key, value));
        proof {
            lemma_entry_push(s1, (key, value));
            assert(entry_map(s1).insert(key@, value@) =~= entry_map(s0).insert(key@, value@));
            assert(final(self).wf());
            assert forall|j: int| 0 <= j < final(self).vals().len() implies
                old(self).vals().contains(#[trigger] final(self).vals()[j])
                || final(self).vals()[j] == value by {
                if j < s1.len() {
                    let e = s1[j];
                    assert(s0.contains(e));
                    let j0 = choose|j0: int| 0 <= j0 < s0.len() && s0[j0] == e;
                    assert(old(self).vals()[j0] == e.1);
                    assert(old(self).vals().contains(final(self).vals()[j]));
                }
            }
        }
    }

    /// Removes and returns the value under a name.
    pub fn take_out(&mut self, key: &String) -> (r: Option<T>)
        requires
            old(self).wf(),
        ensures
            final(self).wf(),
            match r {
                Some(v) => old(self)@.contains_key(key@) && v@ == old(self)@[key@]
                    && old(self).vals().contains(v)
                    && final(self)@ == old(self)@.remove(key@),
                None => !old(self)@.contains_key(key@) && *final(self) == *old(self),
            },
            forall|j: int| 0 <= j < final(self).vals().len() ==>
                old(self).vals().contains(#[trigger] final(self).vals()[j]),
    {
        let ghost s0 = self.entries@;
        match self.find_idx(key) {
            Some(i) => {
                let p = self.entries.remove(i);
                proof {
                    lemma_entry_remove(s0, i as int);
                    lemma_entry_lookup(s0, i as int);
                    assert(old(self).vals()[i as int] == p.1);
                    s0.remove_ensures(i as int);
                    assert forall|j: int| 0 <= j < final(self).vals().len() implies
                        old(self).vals().contains(#[trigger] final(self).vals()[j]) by {
                        if j < i {
                            assert(old(self).vals()[j] == final(self).vals()[j]);
                        } else {
                            assert(old(self).vals()[j + 1] == final(self).vals()[j]);
                        }
                    }
                }
                Some(p.1)
            },
            None => {
                proof {
                    lemma_entry_absent(s0, key@);
                    assert(forall|j: int| 0 <= j < final(self).vals().len() ==>
                        old(self).vals().contains(#[trigger] final(self).vals()[j]));
                }
                None
            },
        }
    }

    /// Removes the value under a name; reports whether one was there.
    pub fn remove_entry(&mut self, key: &String) -> (found: bool)
        requires
            old(self).wf(),
        ensures
            final(self).wf(),
            found == old(self)@.contains_key(key@),
            final(self)@ == (if found {
                old(self)@.remove(key@)
            } else {
                old(self)@
            }),
            forall|j: int| 0 <= j < final(self).vals().len() ==>
                old(self).vals().contains(#[trigger] final(self).vals()[j]),
    {
        match self.take_out(key) {
            Some(_) => true,
            None => false,
        }
    }

    /// All names held, in entry order.
    pub fn names(&self) -> (r: Vec<String>)
        ensures
            view_seq(r@) == self.key_list(),
    {
        let n = self.entries.len();
        let mut r: Vec<String> = Vec::new();
        let mut i: usize = 0;
        while i < n
            invariant
                n == self.entries@.len(),
                i <= n,
                r@.len() == i,
                forall|j: int| 0 <= j < i ==> r@[j]@ == self.entries@[j].0@,
            decreases n - i,
        {
            r.push(self.entries[i].0.clone());
            i = i + 1;
        }
        proof {
            assert(view_seq(r@) =~= self.key_list());
        }
        r
    }
}

} // verus!
