use vstd::prelude::*;
use crate::ids::TaskId;

verus! {

/// A set of task handles, deduplicated by identity. Inserting a member that is
/// already present and removing one that is absent leave the set unchanged.
#[derive(Debug)]
pub struct RcSet {
    items: Vec<TaskId>,
}

impl View for RcSet {
    type V = Set<TaskId>;

    closed spec fn view(&self) -> Set<TaskId> {
        self.items@.to_set()
    }
}

impl RcSet {
    /// No handle is held twice.
    pub closed spec fn wf(&self) -> bool {
        self.items@.no_duplicates()
    }

    pub fn new() -> (r: RcSet)
        ensures
            r.wf(),
            r@ == Set::<TaskId>::empty(),
    {
        let r = RcSet { items: Vec::new() };
        proof {
            assert(r@ =~= Set::<TaskId>::empty());
        }
        r
    }

    /// Position of `t` among the members, if it is one.
    fn find(&self, t: TaskId) -> (r: Option<usize>)
        ensures
            match r {
                Some(i) => i < self.items@.len() && self.items@[i as int] == t,
                None => !self.items@.contains(t),
            },
    {
        let mut i: usize = 0;
        while i < self.items.len()
            invariant
                i <= self.items@.len(),
                forall|j: int| 0 <= j < i ==> self.items@[j] != t,
            decreases self.items@.len() - i,
        {
            if self.items[i] == t {
                return Some(i);
            }
            i = i + 1;
        }
        None
    }

    pub fn contains(&self, t: TaskId) -> (r: bool)
        ensures
            r == self@.contains(t),
    {
        let found = self.find(t);
        found.is_some()
    }

    /// Adds `t`; returns whether it was absent before.
    pub fn insert(&mut self, t: TaskId) -> (r: bool)
        requires
            old(self).wf(),
        ensures
            final(self).wf(),
            final(self)@ == old(self)@.insert(t),
            r == !old(self)@.contains(t),
    {
        if self.find(t).is_some() {
            proof {
                assert(self@ =~= self@.insert(t));
            }
            false
        } else {
            let ghost before = self.items@;
            self.items.push(t);
            proof {
                assert(self.items@ == before.push(t));
                before.lemma_push_to_set_commute(t);
            }
            true
        }
    }

    /// Removes `t`; returns whether it was present before.
    pub fn remove(&mut self, t: TaskId) -> (r: bool)
        requires
            old(self).wf(),
        ensures
            final(self).wf(),
            final(self)@ == old(self)@.remove(t),
            r == old(self)@.contains(t),
    {
        match self.find(t) {
            None => {
                proof {
                    assert(self@ =~= self@.remove(t));
                }
                false
            },
            Some(i) => {
                let ghost before = self.items@;
                self.items.remove(i);
                proof {
                    assert(self.items@ == before.remove(i as int));
                    assert forall|x: TaskId| self@.contains(x) <==> before.to_set().remove(t).contains(x) by {
                        if self@.contains(x) {
                            let k = choose|k: int| 0 <= k < self.items@.len() && self.items@[k] == x;
                            if k < i {
                                assert(before[k] == x);
                            } else {
                                assert(before[k + 1] == x);
                            }
                        }
                        if before.to_set().remove(t).contains(x) {
                            let k = choose|k: int| 0 <= k < before.len() && before[k] == x;
                            if k < i {
                                assert(self.items@[k] == x);
                            } else {
                                assert(k != i);
                                assert(self.items@[k - 1] == x);
                            }
                        }
                    }
                    assert(self@ =~= before.to_set().remove(t));
                }
                true
            },
        }
    }

    pub fn len(&self) -> (r: usize)
        requires
            self.wf(),
        ensures
            r == self@.len(),
    {
        proof {
            self.items@.unique_seq_to_set();
        }
        self.items.len()
    }

    pub fn is_empty(&self) -> (r: bool)
        ensures
            r == (self@ == Set::<TaskId>::empty()),
    {
        proof {
            if self.items@.len() > 0 {
                assert(self@.contains(self.items@[0]));
            } else {
                assert(self@ =~= Set::<TaskId>::empty());
            }
        }
        self.items.len() == 0
    }

    /// The members, each once, in no particular order.
    pub fn to_vec(&self) -> (r: Vec<TaskId>)
        requires
            self.wf(),
        ensures
            r@.no_duplicates(),
            r@.to_set() == self@,
    {
        self.items.clone()
    }
}

/// Inserting a member twice gives the set that inserting it once gives.
pub proof fn lemma_insert_twice(s0: Set<TaskId>, t: TaskId)
    ensures
        s0.insert(t).insert(t) == s0.insert(t),
        s0.insert(t).contains(t),
{
    assert(s0.insert(t).insert(t) =~= s0.insert(t));
}

/// Removing a handle that is no member leaves the set as it was.
pub proof fn lemma_remove_absent(s0: Set<TaskId>, t: TaskId)
    requires
        !s0.contains(t),
    ensures
        s0.remove(t) == s0,
{
    assert(s0.remove(t) =~= s0);
}

} // verus!
