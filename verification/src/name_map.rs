//! A map from names to values that remembers the order in which the names
//! first came in.

use vstd::prelude::*;
use crate::text::{lists, same_text, texts};

verus! {

/// A map from names to values. Each name occurs once, and keeps the place it
/// got when it first came in.
#[derive(Debug)]
pub struct NameMap<V> {
    entries: Vec<(String, V)>,
}

impl<V> View for NameMap<V> {
    type V = Map<Seq<char>, V>;

    /// What each name stands for.
    closed spec fn view(&self) -> Map<Seq<char>, V> {
        Map::new(
            |name: Seq<char>| self.names().contains(name),
            |name: Seq<char>| self.entries@[self.names().index_of(name)].1,
        )
    }
}

impl<V> NameMap<V> {
    /// The names, in the order in which they came in.
    pub closed spec fn names(&self) -> Seq<Seq<char>> {
        Seq::new(self.entries@.len(), |i: int| self.entries@[i].0@)
    }

    #[verifier::type_invariant]
    spec fn distinct(&self) -> bool {
        self.names().no_duplicates()
    }

    /// A name is mapped exactly where it is listed.
    pub broadcast proof fn lemma_listed(m: NameMap<V>, name: Seq<char>)
        ensures
            #[trigger] m@.contains_key(name) <==> m.names().contains(name),
    {
    }

    proof fn lemma_entry(m: NameMap<V>, i: int)
        requires
            m.names().no_duplicates(),
            0 <= i < m.entries@.len(),
        ensures
            m@.contains_key(m.entries@[i].0@),
            m@[m.entries@[i].0@] == m.entries@[i].1,
    {
        let name = m.names()[i];
        assert(m.names().contains(name));
        let j = m.names().index_of(name);
        assert(m.names()[j] == name);
        assert(i == j);
    }

    /// A map without names.
    pub fn new() -> (r: Self)
        ensures
            r@ == Map::<Seq<char>, V>::empty(),
            r.names() == Seq::<Seq<char>>::empty(),
    {
        let r = NameMap { entries: Vec::new() };
        assert(r@ =~= Map::<Seq<char>, V>::empty());
        r
    }

    /// The number of names.
    pub fn len(&self) -> (n: usize)
        ensures
            n == self.names().len(),
            self.names().no_duplicates(),
    {
        proof {
            use_type_invariant(self);
        }
        self.entries.len()
    }

    /// The place of `name` among the names, or `None` where it is not there.
    fn position(&self, name: &str) -> (r: Option<usize>)
        ensures
            match r {
                Some(i) => i < self.entries@.len() && self.entries@[i as int].0@ == name@,
                None => !self.names().contains(name@),
            },
    {
        let mut i: usize = 0;
        while i < self.entries.len()
            invariant
                i <= self.entries.len(),
                forall|j: int| 0 <= j < i ==> #[trigger] self.entries@[j].0@ != name@,
            decreases self.entries.len() - i,
        {
            if same_text(self.entries[i].0.as_str(), name) {
                return Some(i);
            }
            i += 1;
        }
        None
    }

    /// Whether `name` is mapped.
    pub fn contains_key(&self, name: &str) -> (r: bool)
        ensures
            r == self@.contains_key(name@),
    {
        match self.position(name) {
            Some(i) => {
                assert(self.names()[i as int] == name@);
                true
            },
            None => false,
        }
    }

    /// What `name` stands for.
    pub fn get(&self, name: &str) -> (r: Option<&V>)
        ensures
            match r {
                Some(v) => self@.contains_key(name@) && *v == self@[name@],
                None => !self@.contains_key(name@),
            },
    {
        proof {
            use_type_invariant(self);
        }
        match self.position(name) {
            Some(i) => {
                proof {
                    Self::lemma_entry(*self, i as int);
                }
                Some(&self.entries[i].1)
            },
            None => None,
        }
    }

    /// The `i`-th name.
    pub fn name_at(&self, i: usize) -> (r: &String)
        requires
            i < self.names().len(),
        ensures
            r@ == self.names()[i as int],
            self@.contains_key(r@),
    {
        proof {
            use_type_invariant(self);
            Self::lemma_entry(*self, i as int);
        }
        &self.entries[i].0
    }

    /// What the `i`-th name stands for.
    pub fn value_at(&self, i: usize) -> (r: &V)
        requires
            i < self.names().len(),
        ensures
            *r == self@[self.names()[i as int]],
            self@.contains_key(self.names()[i as int]),
    {
        proof {
            use_type_invariant(self);
            Self::lemma_entry(*self, i as int);
        }
        &self.entries[i].1
    }

    /// Lets `name` stand for `value`. A name that is there keeps its place, a
    /// new one comes last.
    pub fn insert(&mut self, name: String, value: V)
        ensures
            final(self)@ == old(self)@.insert(name@, value),
            final(self).names() == if old(self)@.contains_key(name@) {
                old(self).names()
            } else {
                old(self).names().push(name@)
            },
    {
        proof {
            use_type_invariant(&*self);
        }
        let place = self.position(name.as_str());
        let ghost before = *self;
        let mut entries: Vec<(String, V)> = Vec::new();
        std::mem::swap(&mut entries, &mut self.entries);
        match place {
            Some(i) => {
                proof {
                    Self::lemma_entry(before, i as int);
                }
                entries.set(i, (name, value));
                let ghost after = NameMap { entries };
                assert(after.names() =~= before.names());
                self.entries = entries;
                assert forall|k: Seq<char>| #[trigger]
                    before.names().contains(k) implies self@[k] == before@.insert(
                    name@,
                    value,
                )[k] by {
                    let j = before.names().index_of(k);
                    assert(before.names()[j] == k);
                    if k == name@ {
                        assert(before.names()[i as int] == k);
                        assert(j == i);
                    }
                }
                assert(self@ =~= before@.insert(name@, value));
            },
            None => {
                let ghost key = name@;
                entries.push((name, value));
                let ghost after = NameMap { entries };
                assert(after.names() =~= before.names().push(key));
                self.entries = entries;
                proof {
                    Self::lemma_pushed(before, *self, key, value);
                }
            },
        }
    }

    proof fn lemma_pushed(before: NameMap<V>, after: NameMap<V>, key: Seq<char>, value: V)
        requires
            before.names().no_duplicates(),
            !before.names().contains(key),
            after.entries@.len() == before.entries@.len() + 1,
            after.names() == before.names().push(key),
            forall|i: int|
                0 <= i < before.entries@.len() ==> after.entries@[i] == before.entries@[i],
            after.entries@.last().1 == value,
        ensures
            after@ == before@.insert(key, value),
    {
        let n = before.entries@.len() as int;
        assert(after.names()[n] == key);
        assert forall|k: Seq<char>| after@.contains_key(k) <==> before@.insert(
            key,
            value,
        ).contains_key(k) by {
            if before.names().contains(k) {
                let j = before.names().index_of(k);
                assert(after.names()[j] == k);
            }
            if after.names().contains(k) && k != key {
                let j = after.names().index_of(k);
                assert(before.names()[j] == k);
            }
        }
        assert forall|k: Seq<char>| after@.contains_key(k) implies #[trigger] after@[k]
            == before@.insert(key, value)[k] by {
            let j = after.names().index_of(k);
            assert(after.names()[j] == k);
            if k == key {
                if j < n {
                    assert(before.names()[j] == key);
                }
                assert(j == n);
            } else {
                assert(j < n);
                assert(before.names()[j] == k);
                let m = before.names().index_of(k);
                assert(before.names()[m] == k);
                assert(m == j);
            }
        }
        assert(after@ =~= before@.insert(key, value));
    }

    /// Takes `name` out, and gives back what it stood for.
    pub fn remove(&mut self, name: &str) -> (r: Option<V>)
        ensures
            final(self)@ == old(self)@.remove(name@),
            match r {
                Some(v) => {
                    &&& old(self)@.contains_key(name@)
                    &&& v == old(self)@[name@]
                    &&& final(self).names() == old(self).names().remove(
                        old(self).names().index_of(name@),
                    )
                },
                None => !old(self)@.contains_key(name@) && final(self).names() == old(
                    self,
                ).names(),
            },
    {
        proof {
            use_type_invariant(&*self);
        }
        let place = self.position(name);
        let ghost before = *self;
        match place {
            Some(i) => {
                let mut entries: Vec<(String, V)> = Vec::new();
                std::mem::swap(&mut entries, &mut self.entries);
                proof {
                    Self::lemma_entry(before, i as int);
                    let j = before.names().index_of(name@);
                    assert(before.names()[i as int] == name@);
                    assert(before.names()[j] == name@);
                    assert(i == j);
                }
                let taken = entries.remove(i);
                let ghost after = NameMap { entries };
                assert(after.names() =~= before.names().remove(i as int));
                self.entries = entries;
                proof {
                    Self::lemma_removed(before, *self, i as int);
                }
                Some(taken.1)
            },
            None => {
                assert(self@ =~= before@.remove(name@));
                None
            },
        }
    }

    proof fn lemma_removed(before: NameMap<V>, after: NameMap<V>, i: int)
        requires
            before.names().no_duplicates(),
            0 <= i < before.entries@.len(),
            after.entries@ == before.entries@.remove(i),
            after.names() == before.names().remove(i),
        ensures
            after@ == before@.remove(before.names()[i]),
    {
        let key = before.names()[i];
        assert forall|k: Seq<char>| after@.contains_key(k) <==> before@.remove(key).contains_key(
            k,
        ) by {
            if before.names().contains(k) && k != key {
                let j = before.names().index_of(k);
                assert(before.names()[j] == k);
                if j < i {
                    assert(after.names()[j] == k);
                } else {
                    assert(after.names()[j - 1] == k);
                }
            }
            if after.names().contains(k) {
                let j = after.names().index_of(k);
                assert(after.names()[j] == k);
                if j < i {
                    assert(before.names()[j] == k);
                } else {
                    assert(before.names()[j + 1] == k);
                }
            }
        }
        assert forall|k: Seq<char>| after@.contains_key(k) implies #[trigger] after@[k]
            == before@.remove(key)[k] by {
            let j = after.names().index_of(k);
            assert(after.names()[j] == k);
            let m = before.names().index_of(k);
            let at = if j < i {
                j
            } else {
                j + 1
            };
            assert(before.names()[at] == k);
            assert(before.names()[m] == k);
            assert(m == at);
        }
        assert(after@ =~= before@.remove(key));
    }

    /// The names, in order.
    pub fn all_names(&self) -> (r: Vec<String>)
        ensures
            texts(r@) == self.names(),
            self.names().no_duplicates(),
    {
        proof {
            use_type_invariant(self);
        }
        let mut r: Vec<String> = Vec::new();
        let mut i: usize = 0;
        while i < self.entries.len()
            invariant
                i <= self.entries.len(),
                r@.len() == i,
                forall|j: int| 0 <= j < i ==> (#[trigger] r@[j])@ == self.entries@[j].0@,
            decreases self.entries.len() - i,
        {
            r.push(self.entries[i].0.clone());
            i += 1;
        }
        assert(texts(r@) =~= self.names());
        r
    }

    /// Keeps the names that are listed, in their order, and takes out the others.
    pub fn retain(&mut self, listed: &Vec<String>)
        ensures
            final(self)@ == old(self)@.restrict(texts(listed@).to_set()),
            final(self).names() == kept(old(self).names(), texts(listed@)),
    {
        let names = self.all_names();
        let ghost all = self.names();
        let ghost before = self@;
        let ghost keep = texts(listed@);
        let mut i: usize = 0;
        assert(all.take(0) =~= seq![]);
        assert(self.names() =~= kept(all.take(0), keep) + all.skip(0));
        while i < names.len()
            invariant
                i <= names.len(),
                texts(names@) == all,
                all.no_duplicates(),
                keep == texts(listed@),
                self.names() == kept(all.take(i as int), keep) + all.skip(i as int),
                forall|k: Seq<char>| #[trigger] self@.contains_key(k) ==> before.contains_key(k),
                forall|k: Seq<char>|
                    before.contains_key(k) && keep.contains(k) ==> #[trigger] self@.contains_key(k),
                forall|k: Seq<char>| #[trigger]
                    self@.contains_key(k) ==> self@[k] == before[k],
            decreases names.len() - i,
        {
            let ghost key = all[i as int];
            let ghost head = kept(all.take(i as int), keep);
            assert(all.take(i + 1).drop_last() =~= all.take(i as int));
            assert(names@[i as int]@ == key);
            assert(all.skip(i as int) =~= seq![key] + all.skip(i + 1));
            if !lists(listed, names[i].as_str()) {
                let ghost here = self.names();
                proof {
                    use_type_invariant(&*self);
                    assert(here[head.len() as int] == key);
                    assert(here.contains(key));
                    let j = here.index_of(key);
                    assert(here[j] == key);
                    assert(j == head.len());
                    Self::lemma_listed(*self, key);
                }
                let gone = self.remove(names[i].as_str());
                assert(self.names() =~= head + all.skip(i + 1));
            } else {
                assert(self.names() =~= head.push(key) + all.skip(i + 1));
            }
            i += 1;
        }
        proof {
            assert(all.take(i as int) =~= all);
            assert(self.names() =~= kept(all, keep));
            lemma_kept(all, keep);
            assert forall|k: Seq<char>| self@.contains_key(k) implies keep.contains(k) by {
                Self::lemma_listed(*self, k);
            }
            assert(self@ =~= before.restrict(keep.to_set()));
        }
    }
}

/// The names that are listed in `keep`.
pub open spec fn kept(names: Seq<Seq<char>>, keep: Seq<Seq<char>>) -> Seq<Seq<char>>
    decreases names.len(),
{
    if names.len() == 0 {
        seq![]
    } else if keep.contains(names.last()) {
        kept(names.drop_last(), keep).push(names.last())
    } else {
        kept(names.drop_last(), keep)
    }
}

proof fn lemma_kept(names: Seq<Seq<char>>, keep: Seq<Seq<char>>)
    ensures
        forall|k: Seq<char>| kept(names, keep).contains(k) ==> keep.contains(k),
    decreases names.len(),
{
    if names.len() > 0 {
        lemma_kept(names.drop_last(), keep);
        let head = kept(names.drop_last(), keep);
        assert forall|k: Seq<char>| kept(names, keep).contains(k) implies keep.contains(k) by {
            let j = choose|j: int| 0 <= j < kept(names, keep).len() && kept(names, keep)[j] == k;
            if j < head.len() {
                assert(head.contains(head[j]));
            }
        }
    }
}

impl<V: Copy> NameMap<V> {
    /// The same names with the same values.
    pub fn copied(&self) -> (r: Self)
        ensures
            r@ == self@,
            r.names() == self.names(),
    {
        let mut r: NameMap<V> = NameMap::new();
        let n = self.len();
        let ghost all = self.names();
        let mut i: usize = 0;
        assert(all.take(0) =~= Seq::<Seq<char>>::empty());
        while i < n
            invariant
                i <= n == all.len(),
                all == self.names(),
                all.no_duplicates(),
                r.names() == all.take(i as int),
                forall|j: int|
                    0 <= j < i ==> r@.contains_key(#[trigger] all[j]) && r@[all[j]]
                        == self@[all[j]],
            decreases n - i,
        {
            let name = self.name_at(i).clone();
            proof {
                Self::lemma_listed(r, name@);
                if all.take(i as int).contains(name@) {
                    let j = choose|j: int|
                        0 <= j < all.take(i as int).len() && all.take(i as int)[j] == name@;
                    assert(all[j] == name@);
                }
            }
            r.insert(name, *self.value_at(i));
            assert(r.names() =~= all.take(i + 1));
            i += 1;
        }
        assert(all.take(i as int) =~= all);
        assert forall|k: Seq<char>| #![auto] r@.contains_key(k) == self@.contains_key(k) && (
        r@.contains_key(k) ==> r@[k] == self@[k]) by {
            Self::lemma_listed(r, k);
            Self::lemma_listed(*self, k);
            if all.contains(k) {
                let j = all.index_of(k);
                assert(all[j] == k);
            }
        }
        assert(r@ =~= self@);
        r
    }
}

/// Of the names those stay that are listed, in their order, and no other.
pub proof fn law_listed_names_stay(names: Seq<Seq<char>>, keep: Seq<Seq<char>>, name: Seq<char>)
    ensures
        kept(Seq::<Seq<char>>::empty(), keep).len() == 0,
        keep.contains(name) ==> kept(names.push(name), keep) == kept(names, keep).push(name),
        !keep.contains(name) ==> kept(names.push(name), keep) == kept(names, keep),
{
    assert(names.push(name).drop_last() =~= names);
}

} // verus!
