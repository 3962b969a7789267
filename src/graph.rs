use vstd::prelude::*;
use crate::data::Data;
use crate::dataobj::{DataObject, DataObjectRef, DataObjectState, DataObjectType};
use crate::ids::{DataObjectId, KeepPolicy, TaskId};
use crate::rcset::RcSet;

verus! {

/// The ways in which a call on the registry or on a data object is refused.
#[derive(Clone, Copy, Debug, PartialEq, Eq, Structural)]
pub enum GraphError {
    /// An object with this id is already registered.
    DuplicateId,
    /// The data of an object that is not finished was asked for.
    NotFinished,
    /// An object that is already finished was to be finished again.
    AlreadyFinished,
    /// The event is not admitted in the object's current state.
    InvalidTransition,
}

/// The worker's index of data objects. Objects live in an arena and are
/// referred to by [`DataObjectRef`] handles; the index maps each registered
/// id to its object.
#[derive(Debug)]
pub struct Graph {
    pub(crate) objects: Vec<DataObject>,
    /// Whether the object at the same position is still in the index.
    pub(crate) registered: Vec<bool>,
}

impl Graph {
    /// Number of objects ever registered, that is, of valid handles.
    pub open(crate) spec fn num_objects(&self) -> nat {
        self.objects@.len()
    }

    pub open(crate) spec fn object(&self, i: int) -> DataObject {
        self.objects@[i]
    }

    pub open(crate) spec fn is_registered(&self, i: int) -> bool {
        self.registered@[i]
    }

    /// The arena and the index agree, ids in the index are unique, and each
    /// object is well formed.
    pub open(crate) spec fn wf(&self) -> bool {
        &&& self.registered@.len() == self.objects@.len()
        &&& forall|i: int| 0 <= i < self.objects@.len() ==> (#[trigger] self.objects@[i]).wf()
        &&& forall|i: int, j: int|
            0 <= i < self.objects@.len() && 0 <= j < self.objects@.len() && self.registered@[i]
                && self.registered@[j] && #[trigger] self.objects@[i].id == #[trigger] self.objects@[j].id
                ==> i == j
    }

    pub open spec fn holds(&self, r: DataObjectRef) -> bool {
        0 <= r.spec_index() < self.num_objects()
    }

    pub open spec fn state_of(&self, r: DataObjectRef) -> DataObjectState {
        self.object(r.spec_index()).spec_state()
    }

    /// `other` is this graph with at most the object behind `r` changed.
    pub open spec fn same_except(&self, other: Graph, r: DataObjectRef) -> bool {
        &&& self.num_objects() == other.num_objects()
        &&& self.id_index() == other.id_index()
        &&& forall|i: int|
            0 <= i < self.num_objects() && i != r.spec_index() ==> #[trigger] other.object(i) == self.object(i)
    }

    /// `r` is the handle under which `id` is registered.
    pub open spec fn registers(&self, id: DataObjectId, r: DataObjectRef) -> bool {
        &&& self.holds(r)
        &&& self.is_registered(r.spec_index())
        &&& self.object(r.spec_index()).spec_id() == id
    }

    pub open spec fn contains_id(&self, id: DataObjectId) -> bool {
        exists|r: DataObjectRef| self.registers(id, r)
    }

    /// The index as a map from id to handle.
    pub open spec fn id_index(&self) -> Map<DataObjectId, DataObjectRef> {
        Map::new(
            |id: DataObjectId| self.contains_id(id),
            |id: DataObjectId| choose|r: DataObjectRef| self.registers(id, r),
        )
    }

    pub fn new() -> (r: Graph)
        ensures
            r.wf(),
            r.num_objects() == 0,
            r.id_index() == Map::<DataObjectId, DataObjectRef>::empty(),
    {
        let g = Graph { objects: Vec::new(), registered: Vec::new() };
        assert(g.id_index() =~= Map::<DataObjectId, DataObjectRef>::empty());
        g
    }
    /// At most one handle is registered under an id.
    pub proof fn lemma_registers_unique(&self, id: DataObjectId, r1: DataObjectRef, r2: DataObjectRef)
        requires
            self.wf(),
            self.registers(id, r1),
            self.registers(id, r2),
        ensures
            r1 == r2,
    {
        assert(self.objects@[r1.spec_index()].id == self.objects@[r2.spec_index()].id);
        assert(r1.index == r2.index);
    }

    /// Two well-formed graphs that register the same handles under the same
    /// ids have the same index.
    pub proof fn lemma_same_index(&self, other: Graph)
        requires
            self.wf(),
            other.wf(),
            forall|x: DataObjectId, c: DataObjectRef| self.registers(x, c) <==> other.registers(x, c),
        ensures
            self.id_index() == other.id_index(),
    {
        assert forall|x: DataObjectId| #![auto] self.contains_id(x) implies self.id_index()[x] == other.id_index()[x] by {
            let a = self.id_index()[x];
            let b = other.id_index()[x];
            assert(self.registers(x, a));
            assert(self.registers(x, b));
            self.lemma_registers_unique(x, a, b);
        }
        assert(self.id_index() =~= other.id_index());
    }

    /// The handle under which `id` is registered, if any.
    pub fn lookup_object(&self, id: DataObjectId) -> (r: Option<DataObjectRef>)
        requires
            self.wf(),
        ensures
            r == (if self.id_index().contains_key(id) {
                Some(self.id_index()[id])
            } else {
                None::<DataObjectRef>
            }),
    {
        let mut i: usize = 0;
        while i < self.objects.len()
            invariant
                self.wf(),
                i <= self.objects@.len(),
                forall|j: int| 0 <= j < i ==> !(self.registered@[j] && self.objects@[j].id == id),
            decreases self.objects@.len() - i,
        {
            if self.registered[i] && self.objects[i].id == id {
                let r = DataObjectRef { index: i };
                proof {
                    assert(self.registers(id, r));
                    let c = choose|x: DataObjectRef| self.registers(id, x);
                    self.lemma_registers_unique(id, r, c);
                }
                return Some(r);
            }
            i = i + 1;
        }
        proof {
            assert forall|x: DataObjectRef| !self.registers(id, x) by {
                if self.registers(id, x) {
                    assert(!(self.registered@[x.spec_index()] && self.objects@[x.spec_index()].id == id));
                }
            }
        }
        None
    }

    /// Constructs a data object with an empty consumer set and registers it
    /// under `id`; refused when `id` is already registered.
    pub fn register_object(
        &mut self,
        id: DataObjectId,
        state: DataObjectState,
        obj_type: DataObjectType,
        keep: KeepPolicy,
        size: Option<usize>,
        label: String,
    ) -> (r: Result<DataObjectRef, GraphError>)
        requires
            old(self).wf(),
        ensures
            final(self).wf(),
            old(self).id_index().contains_key(id) <==> r is Err,
            r is Err ==> r == Err::<DataObjectRef, GraphError>(GraphError::DuplicateId) && *final(self) == *old(self),
            r matches Ok(h) ==> {
                &&& h.spec_index() == old(self).num_objects()
                &&& final(self).num_objects() == old(self).num_objects() + 1
                &&& forall|i: int| 0 <= i < old(self).num_objects() ==> final(self).object(i) == old(self).object(i)
                &&& final(self).object(h.spec_index()).spec_id() == id
                &&& final(self).object(h.spec_index()).spec_state() == state
                &&& final(self).object(h.spec_index()).spec_obj_type() == obj_type
                &&& final(self).object(h.spec_index()).spec_keep() == keep
                &&& final(self).object(h.spec_index()).spec_size() == size
                &&& final(self).object(h.spec_index()).spec_label() == label@
                &&& final(self).object(h.spec_index()).spec_consumers() == Set::<TaskId>::empty()
                &&& final(self).id_index() == old(self).id_index().insert(id, h)
            },
    {
        if self.lookup_object(id).is_some() {
            return Err(GraphError::DuplicateId);
        }
        let ghost before = *self;
        let h = DataObjectRef { index: self.objects.len() };
        let consumers = RcSet::new();
        self.objects.push(DataObject { id, state, consumers, obj_type, keep, size, label });
        self.registered.push(true);
        proof {
            let n = before.objects@.len() as int;
            assert forall|k: int| 0 <= k < n && before.registered@[k] implies before.objects@[k].id != id by {
                let w = DataObjectRef { index: k as usize };
                assert(!before.registers(id, w));
            }
            assert forall|i: int, j: int|
                0 <= i < self.objects@.len() && 0 <= j < self.objects@.len() && self.registered@[i]
                    && self.registered@[j] && #[trigger] self.objects@[i].id == #[trigger] self.objects@[j].id
                    implies i == j by {
                if i < n && j < n {
                    assert(before.objects@[i] == self.objects@[i]);
                    assert(before.objects@[j] == self.objects@[j]);
                } else if i < n {
                    assert(before.objects@[i] == self.objects@[i]);
                } else if j < n {
                    assert(before.objects@[j] == self.objects@[j]);
                }
            }
            assert(self.wf());
            assert(self.registers(id, h));
            assert forall|x: DataObjectId| #![auto] self.contains_id(x) <==> before.id_index().insert(id, h).contains_key(x) by {
                if self.contains_id(x) {
                    let c = choose|c: DataObjectRef| self.registers(x, c);
                    if c != h {
                        assert(before.registers(x, c));
                    }
                }
                if x != id && before.contains_id(x) {
                    let c = choose|c: DataObjectRef| before.registers(x, c);
                    assert(self.registers(x, c));
                }
            }
            assert forall|x: DataObjectId| #![auto] self.contains_id(x) ==> self.id_index()[x] == before.id_index().insert(id, h)[x] by {
                if self.contains_id(x) {
                    let c = self.id_index()[x];
                    assert(self.registers(x, c));
                    if x == id {
                        self.lemma_registers_unique(x, c, h);
                    } else {
                        assert(before.registers(x, c));
                        let b = before.id_index()[x];
                        before.lemma_registers_unique(x, c, b);
                    }
                }
            }
            assert(self.id_index() =~= before.id_index().insert(id, h));
        }
        Ok(h)
    }

    /// Removes `id` from the index and returns the handle it was registered
    /// under. The object itself stays reachable through its handles.
    pub fn remove_object(&mut self, id: DataObjectId) -> (r: Option<DataObjectRef>)
        requires
            old(self).wf(),
        ensures
            final(self).wf(),
            r == (if old(self).id_index().contains_key(id) {
                Some(old(self).id_index()[id])
            } else {
                None::<DataObjectRef>
            }),
            final(self).num_objects() == old(self).num_objects(),
            forall|i: int| 0 <= i < old(self).num_objects() ==> final(self).object(i) == old(self).object(i),
            final(self).id_index() == old(self).id_index().remove(id),
    {
        let found = self.lookup_object(id);
        match found {
            None => {
                proof {
                    assert(self.id_index() =~= self.id_index().remove(id));
                }
                None
            },
            Some(h) => {
                let ghost before = *self;
                self.registered.set(h.index, false);
                proof {
                    assert(before.registers(id, h));
                    assert forall|x: DataObjectId| #![auto] self.contains_id(x) <==> before.id_index().remove(id).contains_key(x) by {
                        if self.contains_id(x) {
                            let c = choose|c: DataObjectRef| self.registers(x, c);
                            assert(before.registers(x, c));
                        }
                        if x != id && before.contains_id(x) {
                            let c = choose|c: DataObjectRef| before.registers(x, c);
                            if c == h {
                                assert(before.registers(id, c));
                            }
                            assert(self.registers(x, c));
                        }
                    }
                    assert forall|x: DataObjectId| #![auto] self.contains_id(x) ==> self.id_index()[x] == before.id_index()[x] by {
                        if self.contains_id(x) {
                            let c = self.id_index()[x];
                            assert(self.registers(x, c));
                            assert(before.registers(x, c));
                            let b = before.id_index()[x];
                            before.lemma_registers_unique(x, c, b);
                        }
                    }
                    assert(self.id_index() =~= before.id_index().remove(id));
                }
                Some(h)
            },
        }
    }

    /// Whether `id` is registered.
    pub fn contains(&self, id: DataObjectId) -> (r: bool)
        requires
            self.wf(),
        ensures
            r == self.id_index().contains_key(id),
    {
        self.lookup_object(id).is_some()
    }
}

/// Once an object is registered under `id`, the id is present, so a second
/// registration under it is refused.
pub proof fn lemma_registered_id_present(g0: Graph, g1: Graph, id: DataObjectId, h: DataObjectRef)
    requires
        g1.id_index() == g0.id_index().insert(id, h),
    ensures
        g1.id_index().contains_key(id),
{
    assert(g1.id_index().contains_key(id));
}

} // verus!
