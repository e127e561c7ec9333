use vstd::prelude::*;

use crate::task::{Task, TaskView};

verus! {

/// A finite map keyed by 128-bit identifiers that keeps its entries in the
/// order in which their keys were first inserted.
///
/// `keys[i]` is the key of `vals[i]`; no key occurs twice.
pub struct IdMap<V> {
    pub keys: Vec<u128>,
    pub vals: Vec<V>,
}

impl<V: View> View for IdMap<V> {
    type V = Map<u128, V::V>;

    open spec fn view(&self) -> Map<u128, V::V> {
        Map::new(
            |k: u128| self.keys@.contains(k),
            |k: u128| self.vals@[self.keys@.index_of(k)]@,
        )
    }
}

/// In a sequence without duplicates, the position of an element is the one
/// it stands at.
pub proof fn lemma_index_of_unique(keys: Seq<u128>, i: int)
    requires
        keys.no_duplicates(),
        0 <= i < keys.len(),
    ensures
        keys.index_of(keys[i]) == i,
{
    assert(keys.contains(keys[i]));
}

impl<V: View> IdMap<V> {
    /// Keys and values line up and no key repeats.
    pub open spec fn wf(&self) -> bool {
        &&& self.keys@.len() == self.vals@.len()
        &&& self.keys@.no_duplicates()
    }

    /// The value stored at position `i` is the one the map gives its key.
    pub proof fn lemma_entry(&self, i: int)
        requires
            self.wf(),
            0 <= i < self.keys@.len(),
        ensures
            self@.contains_key(self.keys@[i]),
            self@[self.keys@[i]] == self.vals@[i]@,
    {
        lemma_index_of_unique(self.keys@, i);
    }

    /// The empty map.
    pub fn new() -> (r: Self)
        ensures
            r.wf(),
            r@ == Map::<u128, V::V>::empty(),
            r.keys@.len() == 0,
    {
        let r = IdMap { keys: Vec::new(), vals: Vec::new() };
        assert(r@ =~= Map::<u128, V::V>::empty());
        r
    }

    /// Position of `k` among the keys, if present.
    pub fn position(&self, k: u128) -> (r: Option<usize>)
        requires
            self.wf(),
        ensures
            match r {
                Some(i) => i < self.keys@.len() && self.keys@[i as int] == k,
                None => !self.keys@.contains(k),
            },
            r is Some <==> self@.contains_key(k),
    {
        let mut i: usize = 0;
        while i < self.keys.len()
            invariant
                0 <= i <= self.keys@.len(),
                forall|j: int| 0 <= j < i ==> self.keys@[j] != k,
            decreases self.keys@.len() - i,
        {
            if self.keys[i] == k {
                return Some(i);
            }
            i = i + 1;
        }
        None
    }

    /// The value of `k`, if any.
    pub fn get(&self, k: u128) -> (r: Option<&V>)
        requires
            self.wf(),
        ensures
            r is Some <==> self@.contains_key(k),
            r is Some ==> r->0@ == self@[k],
    {
        match self.position(k) {
            Some(i) => {
                proof {
                    self.lemma_entry(i as int);
                }
                Some(&self.vals[i])
            },
            None => None,
        }
    }

    /// Sets the value of `k` to `v`. A new key goes after all others; an
    /// existing key keeps its place.
    pub fn insert(&mut self, k: u128, v: V)
        requires
            old(self).wf(),
        ensures
            final(self).wf(),
            final(self)@ == old(self)@.insert(k, v@),
            old(self).keys@.contains(k) ==> final(self).keys@ == old(self).keys@,
            !old(self).keys@.contains(k) ==> final(self).keys@ == old(self).keys@.push(k),
    {
        let ghost v_view = v@;
        match self.position(k) {
            Some(i) => {
                self.vals.set(i, v);
                proof {
                    assert forall|k2: u128| #[trigger] self@.contains_key(k2) implies self@[k2]
                        == old(self)@.insert(k, v_view)[k2] by {
                        let j = self.keys@.index_of(k2);
                        assert(self.keys@.contains(k2));
                        if k2 == k {
                            lemma_index_of_unique(self.keys@, i as int);
                        } else {
                            assert(self.keys@[j] == k2);
                            assert(j != i);
                        }
                    }
                    assert(self@ =~= old(self)@.insert(k, v_view));
                }
            },
            None => {
                self.keys.push(k);
                self.vals.push(v);
                proof {
                    let n = old(self).keys@.len();
                    assert(self.keys@.no_duplicates()) by {
                        assert forall|a: int, b: int|
                            0 <= a < self.keys@.len() && 0 <= b < self.keys@.len() && a != b
                            implies self.keys@[a] != self.keys@[b] by {
                            if a == n {
                                assert(old(self).keys@.contains(self.keys@[b]) || b == n);
                            } else if b == n {
                                assert(old(self).keys@.contains(self.keys@[a]));
                            }
                        }
                    }
                    assert forall|k2: u128| #[trigger] self@.contains_key(k2) implies self@[k2]
                        == old(self)@.insert(k, v_view)[k2] by {
                        let j = self.keys@.index_of(k2);
                        assert(self.keys@.contains(k2));
                        if k2 == k {
                            lemma_index_of_unique(self.keys@, n as int);
                        } else {
                            assert(self.keys@[j] == k2);
                            assert(j != n);
                            assert(old(self).keys@[j] == k2);
                            lemma_index_of_unique(old(self).keys@, j);
                        }
                    }
                    assert forall|k2: u128| #[trigger] self@.contains_key(k2) <==> old(self)@.insert(k, v_view).contains_key(k2) by {
                        if k2 != k && self.keys@.contains(k2) {
                            let j = choose|j: int| 0 <= j < self.keys@.len() && self.keys@[j] == k2;
                            assert(old(self).keys@[j] == k2);
                        }
                        if old(self).keys@.contains(k2) {
                            let j = choose|j: int| 0 <= j < old(self).keys@.len() && old(self).keys@[j] == k2;
                            assert(self.keys@[j] == k2);
                        }
                        if k2 == k {
                            assert(self.keys@[n as int] == k);
                        }
                    }
                    assert(self@ =~= old(self)@.insert(k, v_view));
                }
            },
        }
    }
}

/// Whether `tasks` lists the values of `db`, each exactly once.
pub open spec fn lists_values(tasks: Seq<Task>, db: Map<u128, TaskView>) -> bool {
    &&& forall|i: int| 0 <= i < tasks.len() ==> #[trigger] db.contains_key(tasks[i].id)
        && db[tasks[i].id] == tasks[i]@
    &&& forall|i: int, j: int| 0 <= i < j < tasks.len() ==> tasks[i].id != tasks[j].id
    &&& forall|k: u128| db.contains_key(k) ==> exists|i: int| 0 <= i < tasks.len() && #[trigger] tasks[i].id == k
}

impl IdMap<Task> {
    /// A copy of every stored task, in the order of their keys.
    pub fn tasks(&self) -> (r: Vec<Task>)
        requires
            self.wf(),
            forall|k: u128| #[trigger] self@.contains_key(k) ==> self@[k].id == k,
        ensures
            lists_values(r@, self@),
    {
        let mut r: Vec<Task> = Vec::new();
        let mut i: usize = 0;
        while i < self.vals.len()
            invariant
                self.wf(),
                forall|k: u128| #[trigger] self@.contains_key(k) ==> self@[k].id == k,
                0 <= i <= self.vals@.len(),
                r@.len() == i,
                forall|j: int| 0 <= j < i ==> #[trigger] r@[j].id == self.keys@[j]
                    && r@[j]@ == self.vals@[j]@,
            decreases self.vals@.len() - i,
        {
            proof {
                self.lemma_entry(i as int);
            }
            r.push(self.vals[i].clone());
            i = i + 1;
        }
        proof {
            assert forall|a: int| 0 <= a < r@.len() implies #[trigger] self@.contains_key(r@[a].id)
                && self@[r@[a].id] == r@[a]@ by {
                self.lemma_entry(a);
            }
            assert forall|k: u128| self@.contains_key(k) implies exists|a: int|
                0 <= a < r@.len() && #[trigger] r@[a].id == k by {
                let a = choose|a: int| 0 <= a < self.keys@.len() && self.keys@[a] == k;
                assert(r@[a].id == k);
            }
        }
        r
    }
}

} // verus!
