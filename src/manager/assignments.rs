use vstd::prelude::*;

verus! {

/// For each worker address, the ids of the tasks sent to it, oldest first.
///
/// `names[i]` is the address whose list is `ids[i]`; no address repeats.
pub struct WorkerTaskMap {
    pub names: Vec<String>,
    pub ids: Vec<Vec<u128>>,
}

/// `m` with `id` appended to the list of `w`, which starts empty.
pub open spec fn append_id(m: Map<Seq<char>, Seq<u128>>, w: Seq<char>, id: u128) -> Map<
    Seq<char>,
    Seq<u128>,
> {
    if m.contains_key(w) {
        m.insert(w, m[w].push(id))
    } else {
        m.insert(w, seq![id])
    }
}

impl View for WorkerTaskMap {
    type V = Map<Seq<char>, Seq<u128>>;

    open spec fn view(&self) -> Map<Seq<char>, Seq<u128>> {
        Map::new(
            |w: Seq<char>| self.name_views().contains(w),
            |w: Seq<char>| self.ids@[self.name_views().index_of(w)]@,
        )
    }
}

impl WorkerTaskMap {
    /// The addresses as character sequences.
    pub open spec fn name_views(&self) -> Seq<Seq<char>> {
        self.names@.map_values(|s: String| s@)
    }

    /// Names and lists line up and no address repeats.
    pub open spec fn wf(&self) -> bool {
        &&& self.names@.len() == self.ids@.len()
        &&& self.name_views().no_duplicates()
    }

    proof fn lemma_entry(&self, i: int)
        requires
            self.wf(),
            0 <= i < self.names@.len(),
        ensures
            self@.contains_key(self.names@[i]@),
            self@[self.names@[i]@] == self.ids@[i]@,
    {
        let v = self.name_views();
        assert(v[i] == self.names@[i]@);
        assert(v.contains(v[i]));
    }

    /// No worker and no task.
    pub fn new() -> (r: Self)
        ensures
            r.wf(),
            r@ == Map::<Seq<char>, Seq<u128>>::empty(),
    {
        let r = WorkerTaskMap { names: Vec::new(), ids: Vec::new() };
        assert(r@ =~= Map::<Seq<char>, Seq<u128>>::empty());
        r
    }

    fn position(&self, w: &String) -> (r: Option<usize>)
        requires
            self.wf(),
        ensures
            match r {
                Some(i) => i < self.names@.len() && self.names@[i as int]@ == w@,
                None => !self.name_views().contains(w@),
            },
            r is Some <==> self@.contains_key(w@),
    {
        let mut i: usize = 0;
        while i < self.names.len()
            invariant
                0 <= i <= self.names@.len(),
                forall|j: int| 0 <= j < i ==> self.names@[j]@ != w@,
            decreases self.names@.len() - i,
        {
            if self.names[i] == *w {
                assert(self.name_views()[i as int] == w@);
                return Some(i);
            }
            i = i + 1;
        }
        proof {
            if self.name_views().contains(w@) {
                let j = choose|j: int| 0 <= j < self.name_views().len() && self.name_views()[j] == w@;
                assert(self.names@[j]@ == w@);
            }
        }
        None
    }

    /// The task ids recorded for worker `w`, if it has an entry.
    pub fn get(&self, w: &String) -> (r: Option<&Vec<u128>>)
        requires
            self.wf(),
        ensures
            r is Some <==> self@.contains_key(w@),
            r is Some ==> r->0@ == self@[w@],
    {
        match self.position(w) {
            Some(i) => {
                proof {
                    self.lemma_entry(i as int);
                }
                Some(&self.ids[i])
            },
            None => None,
        }
    }

    /// Gives `w` an empty list unless it has one already.
    pub fn add_worker(&mut self, w: String)
        requires
            old(self).wf(),
        ensures
            final(self).wf(),
            old(self)@.contains_key(w@) ==> final(self)@ == old(self)@,
            !old(self)@.contains_key(w@) ==> final(self)@ == old(self)@.insert(w@, Seq::<u128>::empty()),
    {
        if self.position(&w).is_none() {
            let ghost wv = w@;
            self.names.push(w);
            self.ids.push(Vec::new());
            proof {
                self.lemma_after_push(*old(self), wv);
                assert(self.ids@.last()@ =~= Seq::<u128>::empty());
            }
        }
    }

    /// Appends `id` to the list of `w`, which starts empty.
    pub fn append(&mut self, w: String, id: u128)
        requires
            old(self).wf(),
        ensures
            final(self).wf(),
            final(self)@ == append_id(old(self)@, w@, id),
    {
        match self.position(&w) {
            Some(i) => {
                let mut list = self.ids[i].clone();
                assert(list@ =~= self.ids@[i as int]@);
                list.push(id);
                self.ids.set(i, list);
                proof {
                    old(self).lemma_entry(i as int);
                    assert(self.name_views() =~= old(self).name_views());
                    assert forall|w2: Seq<char>| #[trigger] self@.contains_key(w2) implies self@[w2]
                        == append_id(old(self)@, w@, id)[w2] by {
                        let v = self.name_views();
                        let j = v.index_of(w2);
                        assert(v.contains(w2));
                        assert(v[i as int] == w@);
                        if w2 == w@ {
                            assert(v.index_of(v[i as int]) == i) by {
                                assert(v.contains(v[i as int]));
                            }
                        } else {
                            assert(v[j] == w2);
                            assert(j != i);
                        }
                    }
                    assert(self@ =~= append_id(old(self)@, w@, id));
                }
            },
            None => {
                let ghost wv = w@;
                self.names.push(w);
                let mut list = Vec::new();
                list.push(id);
                self.ids.push(list);
                proof {
                    self.lemma_after_push(*old(self), wv);
                    assert(self.ids@.last()@ =~= seq![id]);
                    assert(self@ =~= append_id(old(self)@, wv, id));
                }
            },
        }
    }

    proof fn lemma_after_push(&self, prev: WorkerTaskMap, w: Seq<char>)
        requires
            prev.wf(),
            !prev.name_views().contains(w),
            self.names@.len() == prev.names@.len() + 1,
            self.ids@.len() == prev.ids@.len() + 1,
            self.names@.last()@ == w,
            forall|j: int| 0 <= j < prev.names@.len() ==> self.names@[j] == prev.names@[j],
            forall|j: int| 0 <= j < prev.ids@.len() ==> self.ids@[j] == prev.ids@[j],
        ensures
            self.wf(),
            self@ == prev@.insert(w, self.ids@.last()@),
    {
        let n = prev.names@.len() as int;
        let v = self.name_views();
        let pv = prev.name_views();
        assert(v =~= pv.push(w));
        assert(v.no_duplicates()) by {
            assert forall|a: int, b: int| 0 <= a < v.len() && 0 <= b < v.len() && a != b implies v[a]
                != v[b] by {
                if a == n {
                    assert(pv.contains(v[b]) || b == n);
                } else if b == n {
                    assert(pv.contains(v[a]));
                }
            }
        }
        let target = prev@.insert(w, self.ids@.last()@);
        assert forall|w2: Seq<char>| #[trigger] self@.contains_key(w2) <==> target.contains_key(w2) by {
            if v.contains(w2) && w2 != w {
                let j = choose|j: int| 0 <= j < v.len() && v[j] == w2;
                assert(pv[j] == w2);
            }
            if pv.contains(w2) {
                let j = choose|j: int| 0 <= j < pv.len() && pv[j] == w2;
                assert(v[j] == w2);
            }
            if w2 == w {
                assert(v[n] == w);
            }
        }
        assert forall|w2: Seq<char>| #[trigger] self@.contains_key(w2) implies self@[w2] == target[w2] by {
            let j = v.index_of(w2);
            assert(v.contains(w2));
            if w2 == w {
                assert(v.index_of(v[n]) == n) by {
                    assert(v.contains(v[n]));
                }
            } else {
                assert(v[j] == w2);
                assert(j != n);
                assert(pv[j] == w2);
                assert(pv.index_of(pv[j]) == j) by {
                    assert(pv.contains(pv[j]));
                }
            }
        }
        assert(self@ =~= target);
    }
}

} // verus!
