use vstd::prelude::*;

verus! {

/// Keys whose equality can be decided at run time, consistently with their views.
pub trait KeyEq: View + Sized {
    fn key_eq(&self, other: &Self) -> (r: bool)
        ensures
            r == (self@ == other@),
    ;
}

impl KeyEq for [u8; 32] {
    fn key_eq(&self, other: &Self) -> (r: bool) {
        crate::bytes::array32_eq(self, other)
    }
}

impl KeyEq for u64 {
    fn key_eq(&self, other: &Self) -> (r: bool) {
        *self == *other
    }
}

/// A finite map kept as a list of entries in insertion order, each key (by view) once.
pub struct KeyList<K: View, V> {
    entries: Vec<(K, V)>,
    map: Ghost<Map<K::V, V>>,
}

impl<K: KeyEq, V> View for KeyList<K, V> {
    type V = Map<K::V, V>;

    closed spec fn view(&self) -> Map<K::V, V> {
        self.map@
    }
}

impl<K: KeyEq, V> KeyList<K, V> {
    /// The entries, oldest first.
    pub closed spec fn entries(&self) -> Seq<(K, V)> {
        self.entries@
    }

    /// The list holds each key once, and its entries are exactly the map.
    pub closed spec fn wf(&self) -> bool {
        &&& forall|i: int, j: int|
            #![trigger self.entries@[i], self.entries@[j]]
            0 <= i < j < self.entries@.len() ==> self.entries@[i].0@ != self.entries@[j].0@
        &&& forall|i: int|
            0 <= i < self.entries@.len() ==> self.map@.contains_key(#[trigger] self.entries@[i].0@)
                && self.map@[self.entries@[i].0@] == self.entries@[i].1
        &&& forall|k: K::V| #[trigger]
            self.map@.contains_key(k) ==> exists|i: int|
                0 <= i < self.entries@.len() && #[trigger] self.entries@[i].0@ == k
    }

    /// The position of the entry of key `k`, which the map holds.
    pub proof fn entry_of(&self, k: K::V) -> (i: int)
        requires
            self.wf(),
            self@.contains_key(k),
        ensures
            0 <= i < self.entries().len(),
            self.entries()[i].0@ == k,
            self.entries()[i].1 == self@[k],
    {
        choose|i: int| 0 <= i < self.entries@.len() && #[trigger] self.entries@[i].0@ == k
    }

    pub fn new() -> (r: Self)
        ensures
            r.wf(),
            r@ == Map::<K::V, V>::empty(),
            r.entries() == Seq::<(K, V)>::empty(),
    {
        KeyList { entries: Vec::new(), map: Ghost(Map::empty()) }
    }

    pub fn len(&self) -> (r: usize)
        ensures
            r == self.entries().len(),
    {
        self.entries.len()
    }

    /// The position of `k` in the list, if it is there.
    pub fn find(&self, k: &K) -> (r: Option<usize>)
        requires
            self.wf(),
        ensures
            r is None <==> !self@.contains_key(k@),
            r matches Some(i) ==> i < self.entries().len() && self.entries()[i as int].0@ == k@
                && self@[k@] == self.entries()[i as int].1,
    {
        let mut i: usize = 0;
        while i < self.entries.len()
            invariant
                self.wf(),
                i <= self.entries@.len(),
                forall|j: int| 0 <= j < i ==> (#[trigger] self.entries@[j]).0@ != k@,
            decreases self.entries@.len() - i,
        {
            if self.entries[i].0.key_eq(k) {
                return Some(i);
            }
            i = i + 1;
        }
        proof {
            if self@.contains_key(k@) {
                let j = choose|j: int|
                    0 <= j < self.entries@.len() && #[trigger] self.entries@[j].0@ == k@;
                assert(self.entries@[j].0@ != k@);
            }
        }
        None
    }

    pub fn contains(&self, k: &K) -> (r: bool)
        requires
            self.wf(),
        ensures
            r == self@.contains_key(k@),
    {
        self.find(k).is_some()
    }

    pub fn get(&self, k: &K) -> (r: Option<&V>)
        requires
            self.wf(),
        ensures
            r is None <==> !self@.contains_key(k@),
            r matches Some(v) ==> *v == self@[k@],
    {
        match self.find(k) {
            Some(i) => Some(&self.entries[i].1),
            None => None,
        }
    }

    /// Maps `k` to `v`; a new key goes to the end of the list.
    pub fn insert(&mut self, k: K, v: V)
        requires
            old(self).wf(),
        ensures
            final(self).wf(),
            final(self)@ == old(self)@.insert(k@, v),
            !old(self)@.contains_key(k@) ==> final(self).entries() == old(self).entries().push((k, v)),
            forall|i: int|
                0 <= i < old(self).entries().len() && (#[trigger] old(self).entries()[i]).0@ == k@
                    ==> final(self).entries() == old(self).entries().update(i, (k, v)),
    {
        let ghost kv = k@;
        match self.find(&k) {
            Some(i) => {
                self.entries.set(i, (k, v));
                self.map = Ghost(self.map@.insert(kv, v));
                assert forall|kk: K::V| #[trigger] self.map@.contains_key(kk) implies exists|j: int|
                    0 <= j < self.entries@.len() && #[trigger] self.entries@[j].0@ == kk by {
                    if kk == kv {
                        assert(self.entries@[i as int].0@ == kk);
                    } else {
                        assert(old(self).map@.contains_key(kk));
                        let j = choose|j: int|
                            0 <= j < old(self).entries@.len() && #[trigger] old(self).entries@[j].0@ == kk;
                        assert(self.entries@[j].0@ == kk);
                    }
                }
            },
            None => {
                self.entries.push((k, v));
                self.map = Ghost(self.map@.insert(kv, v));
                assert forall|kk: K::V| #[trigger] self.map@.contains_key(kk) implies exists|j: int|
                    0 <= j < self.entries@.len() && #[trigger] self.entries@[j].0@ == kk by {
                    if kk == kv {
                        assert(self.entries@[self.entries@.len() - 1].0@ == kk);
                    } else {
                        assert(old(self).map@.contains_key(kk));
                        let j = choose|j: int|
                            0 <= j < old(self).entries@.len() && #[trigger] old(self).entries@[j].0@ == kk;
                        assert(self.entries@[j].0@ == kk);
                    }
                }
            },
        }
    }

    /// Goes back to an earlier state of the list, of which the present entries extend
    /// the entries.
    pub fn truncate(&mut self, n: usize, Ghost(prev): Ghost<Self>)
        requires
            old(self).wf(),
            prev.wf(),
            n == prev.entries().len(),
            n <= old(self).entries().len(),
            old(self).entries().subrange(0, n as int) == prev.entries(),
        ensures
            final(self).wf(),
            final(self)@ == prev@,
            final(self).entries() == prev.entries(),
    {
        self.entries.truncate(n);
        self.map = Ghost(prev.map@);
        assert(self.entries@ =~= prev.entries@);
    }

    /// Drops `k` from the map, if it is there.
    pub fn remove(&mut self, k: &K)
        requires
            old(self).wf(),
        ensures
            final(self).wf(),
            final(self)@ == old(self)@.remove(k@),
            !old(self)@.contains_key(k@) ==> final(self).entries() == old(self).entries(),
            forall|i: int|
                0 <= i < old(self).entries().len() && (#[trigger] old(self).entries()[i]).0@ == k@
                    ==> final(self).entries() == old(self).entries().update(
                    i,
                    old(self).entries().last(),
                ).drop_last(),
    {
        match self.find(k) {
            Some(i) => {
                let ghost old_entries = self.entries@;
                let ghost last = old_entries.len() - 1;
                let _ = self.entries.swap_remove(i);
                self.map = Ghost(self.map@.remove(k@));
                assert forall|j: int| 0 <= j < self.entries@.len() implies (#[trigger] self.entries@[j]
                    == (if j == i { old_entries[last] } else { old_entries[j] })) by {}
                assert forall|kk: K::V| #[trigger] self.map@.contains_key(kk) implies exists|j: int|
                    0 <= j < self.entries@.len() && #[trigger] self.entries@[j].0@ == kk by {
                    let j = choose|j: int|
                        0 <= j < old_entries.len() && #[trigger] old_entries[j].0@ == kk;
                    assert(j != i);
                    if j == last {
                        assert(self.entries@[i as int].0@ == kk);
                    } else {
                        assert(self.entries@[j].0@ == kk);
                    }
                }
            },
            None => {
                assert(self.map@.remove(k@) =~= self.map@);
            },
        }
    }
}

} // verus!
