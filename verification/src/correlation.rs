//! The correlation table: the set of identifiers of calls that are in
//! flight, one single-use slot per call.
//!
//! A slot is created when a call is registered and leaves the table
//! exactly once: either a matching response resolves it or a timeout or
//! teardown discards it. Whichever of the two comes second finds the
//! identifier gone and does nothing.

use vstd::prelude::*;

verus! {

/// The identifiers of the calls now in flight.
pub struct CorrelationTable {
    ids: Vec<String>,
}

impl View for CorrelationTable {
    type V = Set<Seq<char>>;

    closed spec fn view(&self) -> Set<Seq<char>> {
        self.ids.deep_view().to_set()
    }
}

impl CorrelationTable {
    /// No identifier is written twice.
    pub closed spec fn wf(&self) -> bool {
        forall|i: int, j: int|
            0 <= i < j < self.ids@.len() ==> self.ids@[i]@ != self.ids@[j]@
    }

    pub fn new() -> (r: Self)
        ensures
            r@ == Set::<Seq<char>>::empty(),
            r.wf(),
    {
        let r = CorrelationTable { ids: Vec::new() };
        proof {
            assert(r.ids.deep_view() =~= Seq::<Seq<char>>::empty());
            assert(r@ =~= Set::<Seq<char>>::empty());
        }
        r
    }

    /// How many calls are in flight.
    pub fn len(&self) -> (r: usize)
        requires
            self.wf(),
        ensures
            r == self@.len(),
    {
        proof {
            self.lemma_len();
        }
        self.ids.len()
    }

    proof fn lemma_len(&self)
        requires
            self.wf(),
        ensures
            self@.len() == self.ids@.len(),
            self@.finite(),
    {
        let dv = self.ids.deep_view();
        assert forall|i: int, j: int| 0 <= i < j < dv.len() implies dv[i] != dv[j] by {
            assert(dv[i] == self.ids@[i]@);
            assert(dv[j] == self.ids@[j]@);
        }
        dv.unique_seq_to_set();
    }

    /// Whether a call with this identifier is in flight.
    pub fn contains_id(&self, id: &String) -> (r: bool)
        ensures
            r == self@.contains(id@),
    {
        let mut i: usize = 0;
        loop
            invariant
                i <= self.ids.len(),
                forall|k: int| 0 <= k < i ==> self.ids@[k]@ != id@,
            ensures
                i <= self.ids.len(),
                i < self.ids.len() ==> self.ids@[i as int]@ == id@,
                i == self.ids.len() ==> forall|k: int| 0 <= k < self.ids@.len() ==> self.ids@[k]@
                    != id@,
            decreases self.ids.len() - i,
        {
            if i == self.ids.len() {
                break;
            }
            if self.ids[i] == *id {
                break;
            }
            i = i + 1;
        }
        proof {
            let dv = self.ids.deep_view();
            if i < self.ids.len() {
                assert(dv[i as int] == id@);
                assert(dv.contains(id@));
            } else {
                assert forall|k: int| 0 <= k < dv.len() implies dv[k] != id@ by {
                    assert(dv[k] == self.ids@[k]@);
                }
                assert(!dv.contains(id@));
            }
        }
        i < self.ids.len()
    }

    /// Creates the slot for a fresh call. Nothing changes, and the
    /// registration is refused, if the identifier is already in flight.
    pub fn register(&mut self, id: String) -> (r: bool)
        requires
            old(self).wf(),
        ensures
            final(self).wf(),
            r == !old(self)@.contains(id@),
            r ==> final(self)@ == old(self)@.insert(id@),
            !r ==> *final(self) == *old(self),
    {
        if self.contains_id(&id) {
            return false;
        }
        let ghost old_dv = self.ids.deep_view();
        self.ids.push(id);
        proof {
            let dv = self.ids.deep_view();
            assert(dv =~= old_dv.push(id@));
            assert forall|k: int| 0 <= k < old_dv.len() implies old_dv[k] != id@ by {
                if old_dv[k] == id@ {
                    assert(old_dv.contains(id@));
                }
            }
            assert forall|k: int| 0 <= k < self.ids@.len() implies dv[k] == self.ids@[k]@ by {}
            assert(dv[old_dv.len() as int] == id@);
            assert forall|x: Seq<char>| dv.contains(x) implies old_dv.contains(x) || x == id@ by {
                let k = choose|k: int| 0 <= k < dv.len() && dv[k] == x;
                if k < old_dv.len() {
                    assert(old_dv[k] == x);
                }
            }
            assert forall|x: Seq<char>| old_dv.contains(x) implies dv.contains(x) by {
                let k = choose|k: int| 0 <= k < old_dv.len() && old_dv[k] == x;
                assert(dv[k] == x);
            }
            assert(dv.contains(id@));
            assert(dv.to_set() =~= old_dv.to_set().insert(id@));
            assert forall|i: int, j: int| 0 <= i < j < self.ids@.len() implies self.ids@[i]@
                != self.ids@[j]@ by {
                assert(self.ids@[i] == old(self).ids@[i]);
                assert(old_dv[i] == old(self).ids@[i]@);
                if j == self.ids@.len() - 1 {
                    assert(self.ids@[j]@ == id@);
                } else {
                    assert(self.ids@[j] == old(self).ids@[j]);
                    assert(old_dv[j] == old(self).ids@[j]@);
                }
            }
        }
        true
    }

    /// Removes the slot with this identifier, reporting whether it was
    /// there. Of a resolve and a discard racing for one identifier, the
    /// second call finds it gone and reports so.
    pub fn remove_id(&mut self, id: &String) -> (r: bool)
        requires
            old(self).wf(),
        ensures
            final(self).wf(),
            r == old(self)@.contains(id@),
            final(self)@ == old(self)@.remove(id@),
            !r ==> *final(self) == *old(self),
    {
        let mut i: usize = 0;
        loop
            invariant
                i <= self.ids.len(),
                forall|k: int| 0 <= k < i ==> self.ids@[k]@ != id@,
            ensures
                i <= self.ids.len(),
                i < self.ids.len() ==> self.ids@[i as int]@ == id@,
                i == self.ids.len() ==> forall|k: int| 0 <= k < self.ids@.len() ==> self.ids@[k]@
                    != id@,
                forall|k: int| 0 <= k < i ==> self.ids@[k]@ != id@,
            decreases self.ids.len() - i,
        {
            if i == self.ids.len() {
                break;
            }
            if self.ids[i] == *id {
                break;
            }
            i = i + 1;
        }
        if i == self.ids.len() {
            proof {
                let dv = self.ids.deep_view();
                assert forall|k: int| 0 <= k < dv.len() implies dv[k] != id@ by {
                    assert(dv[k] == self.ids@[k]@);
                }
                assert(!dv.contains(id@));
                assert(dv.to_set() =~= dv.to_set().remove(id@));
            }
            false
        } else {
            let ghost old_dv = self.ids.deep_view();
            let _removed = self.ids.remove(i);
            proof {
                let dv = self.ids.deep_view();
                assert(dv =~= old_dv.remove(i as int));
                assert(old_dv[i as int] == id@);
                assert forall|x: Seq<char>| dv.contains(x) implies old_dv.contains(x) && x != id@
                    by {
                    let k = choose|k: int| 0 <= k < dv.len() && dv[k] == x;
                    if k < i {
                        assert(old_dv[k] == x);
                        assert(self.ids@[k] == old(self).ids@[k]);
                        assert(x != id@);
                    } else {
                        assert(old_dv[k + 1] == x);
                        assert(x != id@);
                    }
                }
                assert forall|x: Seq<char>| old_dv.contains(x) && x != id@ implies dv.contains(x)
                    by {
                    let k = choose|k: int| 0 <= k < old_dv.len() && old_dv[k] == x;
                    assert(k != i);
                    if k < i {
                        assert(dv[k] == x);
                    } else {
                        assert(dv[k - 1] == x);
                    }
                }
                assert(old_dv.contains(id@));
                assert(dv.to_set() =~= old_dv.to_set().remove(id@));
            }
            true
        }
    }

    /// A copy of every identifier in flight, the table untouched.
    pub fn snapshot(&self) -> (r: Vec<String>)
        ensures
            r.deep_view().to_set() == self@,
    {
        let mut out: Vec<String> = Vec::new();
        let mut i: usize = 0;
        while i < self.ids.len()
            invariant
                i <= self.ids.len(),
                out@.len() == i,
                forall|k: int| 0 <= k < i ==> out@[k]@ == self.ids@[k]@,
            decreases self.ids.len() - i,
        {
            let s = self.ids[i].clone();
            out.push(s);
            i = i + 1;
        }
        proof {
            assert(out.deep_view() =~= self.ids.deep_view());
        }
        out
    }

    /// Empties the table, handing back every identifier that was in
    /// flight, so that each waiting caller can be failed.
    pub fn drain(&mut self) -> (r: Vec<String>)
        requires
            old(self).wf(),
        ensures
            final(self).wf(),
            final(self)@ == Set::<Seq<char>>::empty(),
            r.deep_view().to_set() == old(self)@,
    {
        let mut taken: Vec<String> = Vec::new();
        core::mem::swap(&mut self.ids, &mut taken);
        proof {
            assert(self.ids.deep_view() =~= Seq::<Seq<char>>::empty());
            assert(self@ =~= Set::<Seq<char>>::empty());
        }
        taken
    }
}

} // verus!
