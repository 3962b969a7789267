use vstd::prelude::*;
use crate::data::Data;
use crate::graph::{Graph, GraphError};
use crate::ids::{DataObjectId, KeepPolicy, TaskId, WorkerAddress};
use crate::rcset::RcSet;

verus! {

/// Where the bytes of a data object are.
#[derive(Debug)]
pub enum DataObjectState {
    /// Materialized locally, available now.
    Assigned,
    /// Known to live at a peer; no fetch has been started.
    Remote(WorkerAddress),
    /// The believed owner replied that it does not hold the object; the
    /// coordinator was asked where it is and has not answered yet.
    RemoteRedirecting,
    /// A fetch from the peer is in flight.
    Pulling(WorkerAddress),
    /// The bytes are available locally; this state is never left.
    Finished(Data),
}

#[derive(Clone, Copy, Debug, PartialEq, Eq, Structural)]
pub enum DataObjectType {
    Blob,
    Directory,
    Stream,
}

/// An event that drives the location state machine of a data object.
pub enum Event {
    /// The worker decides to fetch the object.
    StartPull,
    /// A fetch delivered the bytes, or the bytes were produced locally.
    TransferSucceeded(Data),
    /// The believed owner replied that it does not hold the object.
    TransferFailedNotHere,
    /// The coordinator named the owner; the flag says whether to fetch at once.
    PlacementResolved(WorkerAddress, bool),
}

/// What the worker has to send out after a transition.
#[derive(Clone, Copy, Debug, PartialEq, Eq, Structural)]
pub enum Action {
    Nothing,
    /// Ask the peer at the address for the object's bytes.
    RequestPull(WorkerAddress, DataObjectId),
    /// Ask the coordinator where the object is.
    RequestPlacement(DataObjectId),
}

pub open spec fn is_finished_state(s: DataObjectState) -> bool {
    s is Finished
}

/// The transition of the state machine: the next state and the action to
/// take, or the error for an event that the state does not admit.
pub open spec fn step(s: DataObjectState, id: DataObjectId, e: Event) -> Result<
    (DataObjectState, Action),
    GraphError,
> {
    match e {
        Event::StartPull => match s {
            DataObjectState::Remote(a) => Ok(
                (DataObjectState::Pulling(a), Action::RequestPull(a, id)),
            ),
            _ => Ok((s, Action::Nothing)),
        },
        Event::TransferSucceeded(d) => match s {
            DataObjectState::Assigned => Ok((DataObjectState::Finished(d), Action::Nothing)),
            DataObjectState::Pulling(_) => Ok((DataObjectState::Finished(d), Action::Nothing)),
            DataObjectState::Finished(_) => Err(GraphError::AlreadyFinished),
            _ => Err(GraphError::InvalidTransition),
        },
        Event::TransferFailedNotHere => match s {
            DataObjectState::Remote(_) => Ok(
                (DataObjectState::RemoteRedirecting, Action::RequestPlacement(id)),
            ),
            DataObjectState::Pulling(_) => Ok(
                (DataObjectState::RemoteRedirecting, Action::RequestPlacement(id)),
            ),
            _ => Err(GraphError::InvalidTransition),
        },
        Event::PlacementResolved(a, pull) => match s {
            DataObjectState::RemoteRedirecting => if pull {
                Ok((DataObjectState::Pulling(a), Action::RequestPull(a, id)))
            } else {
                Ok((DataObjectState::Remote(a), Action::Nothing))
            },
            _ => Err(GraphError::InvalidTransition),
        },
    }
}

/// The state after a sequence of events, where a rejected event leaves the
/// state as it was.
pub open spec fn run(s: DataObjectState, id: DataObjectId, events: Seq<Event>) -> DataObjectState
    decreases events.len(),
{
    if events.len() == 0 {
        s
    } else {
        let next = match step(s, id, events[0]) {
            Ok((t, _)) => t,
            Err(_) => s,
        };
        run(next, id, events.drop_first())
    }
}

/// Once finished, an object stays finished with the same data, whatever
/// sequence of events arrives afterwards.
pub proof fn lemma_finished_is_terminal(s: DataObjectState, id: DataObjectId, events: Seq<Event>)
    requires
        is_finished_state(s),
    ensures
        run(s, id, events) == s,
    decreases events.len(),
{
    if events.len() > 0 {
        lemma_finished_is_terminal(s, id, events.drop_first());
    }
}

/// Finishing an object a second time is rejected and is no overwrite.
pub proof fn lemma_finish_twice_rejected(d1: Data, d2: Data, s: DataObjectState, id: DataObjectId)
    requires
        step(s, id, Event::TransferSucceeded(d1)) is Ok,
    ensures
        ({
            let t = step(s, id, Event::TransferSucceeded(d1)).unwrap().0;
            &&& t == DataObjectState::Finished(d1)
            &&& step(t, id, Event::TransferSucceeded(d2)) == Err::<(DataObjectState, Action), GraphError>(
                GraphError::AlreadyFinished,
            )
        }),
{
}

/// A node of the dataflow graph: one unit of data with its location state,
/// retention policy, size hint, label and the tasks that consume it.
#[derive(Debug)]
pub struct DataObject {
    pub(crate) id: DataObjectId,
    pub(crate) state: DataObjectState,
    /// Tasks to notify when the object is finished.
    pub(crate) consumers: RcSet,
    pub(crate) obj_type: DataObjectType,
    pub(crate) keep: KeepPolicy,
    pub(crate) size: Option<usize>,
    /// The role of the object in the task that produces it, or the name of an
    /// uploaded object.
    pub(crate) label: String,
}

impl DataObject {
    pub open(crate) spec fn spec_id(&self) -> DataObjectId {
        self.id
    }

    pub open(crate) spec fn spec_state(&self) -> DataObjectState {
        self.state
    }

    pub open(crate) spec fn spec_consumers(&self) -> Set<TaskId> {
        self.consumers@
    }

    pub open(crate) spec fn spec_obj_type(&self) -> DataObjectType {
        self.obj_type
    }

    pub open(crate) spec fn spec_keep(&self) -> KeepPolicy {
        self.keep
    }

    pub open(crate) spec fn spec_size(&self) -> Option<usize> {
        self.size
    }

    pub open(crate) spec fn spec_label(&self) -> Seq<char> {
        self.label@
    }

    pub open(crate) spec fn wf(&self) -> bool {
        self.consumers.wf()
    }
}

/// A handle to a data object of a [`Graph`]. Every handle that a graph hands
/// out stays valid for the graph's lifetime, also after the object's id has
/// been removed from the index.
#[derive(Clone, Copy, Debug, PartialEq, Eq, Structural)]
pub struct DataObjectRef {
    pub(crate) index: usize,
}

impl DataObject {
    /// The two objects agree in everything but their state.
    pub open spec fn same_but_state(&self, o: DataObject) -> bool {
        &&& self.spec_id() == o.spec_id()
        &&& self.spec_consumers() == o.spec_consumers()
        &&& self.spec_obj_type() == o.spec_obj_type()
        &&& self.spec_keep() == o.spec_keep()
        &&& self.spec_size() == o.spec_size()
        &&& self.spec_label() == o.spec_label()
    }

    /// The two objects agree in everything but their consumer sets.
    pub open spec fn same_but_consumers(&self, o: DataObject) -> bool {
        &&& self.spec_id() == o.spec_id()
        &&& self.spec_state() == o.spec_state()
        &&& self.spec_obj_type() == o.spec_obj_type()
        &&& self.spec_keep() == o.spec_keep()
        &&& self.spec_size() == o.spec_size()
        &&& self.spec_label() == o.spec_label()
    }
}

impl DataObjectRef {
    pub open(crate) spec fn spec_index(self) -> int {
        self.index as int
    }

    /// The object behind this handle in `g`.
    pub open spec fn obj(self, g: Graph) -> DataObject {
        g.object(self.spec_index())
    }

    /// `g1` and `r` are what applying `e` to the object behind this handle in
    /// `g0` gives: on success the state becomes the one that [`step`] gives
    /// and its action is returned; a rejected event changes nothing.
    pub open spec fn applied(self, g0: Graph, g1: Graph, e: Event, r: Result<Action, GraphError>) -> bool {
        match step(self.obj(g0).spec_state(), self.obj(g0).spec_id(), e) {
            Ok((t, a)) => {
                &&& r == Ok::<Action, GraphError>(a)
                &&& g0.same_except(g1, self)
                &&& self.obj(g1).spec_state() == t
                &&& self.obj(g1).same_but_state(self.obj(g0))
            },
            Err(err) => r == Err::<Action, GraphError>(err) && g1 == g0,
        }
    }

    /// Applies `e` to the state of the object behind this handle.
    pub fn handle_event(&self, graph: &mut Graph, e: Event) -> (r: Result<Action, GraphError>)
        requires
            old(graph).wf(),
            old(graph).holds(*self),
        ensures
            final(graph).wf(),
            self.applied(*old(graph), *final(graph), e, r),
    {
        let i = self.index;
        let id = graph.objects[i].id;
        let ghost before = *graph;
        let (next, action) = match e {
            Event::StartPull => match &graph.objects[i].state {
                DataObjectState::Remote(a) => (DataObjectState::Pulling(*a), Action::RequestPull(*a, id)),
                _ => return Ok(Action::Nothing),
            },
            Event::TransferSucceeded(d) => match &graph.objects[i].state {
                DataObjectState::Assigned => (DataObjectState::Finished(d), Action::Nothing),
                DataObjectState::Pulling(_) => (DataObjectState::Finished(d), Action::Nothing),
                DataObjectState::Finished(_) => return Err(GraphError::AlreadyFinished),
                _ => return Err(GraphError::InvalidTransition),
            },
            Event::TransferFailedNotHere => match &graph.objects[i].state {
                DataObjectState::Remote(_) => (DataObjectState::RemoteRedirecting, Action::RequestPlacement(id)),
                DataObjectState::Pulling(_) => (DataObjectState::RemoteRedirecting, Action::RequestPlacement(id)),
                _ => return Err(GraphError::InvalidTransition),
            },
            Event::PlacementResolved(a, pull) => match &graph.objects[i].state {
                DataObjectState::RemoteRedirecting => if pull {
                    (DataObjectState::Pulling(a), Action::RequestPull(a, id))
                } else {
                    (DataObjectState::Remote(a), Action::Nothing)
                },
                _ => return Err(GraphError::InvalidTransition),
            },
        };
        graph.objects[i].state = next;
        proof {
            assert(graph.registered@ == before.registered@);
            assert forall|k: int| 0 <= k < graph.objects@.len() && k != i implies graph.objects@[k] == before.objects@[k] by {}
            assert(graph.wf());
            assert forall|x: DataObjectId, c: DataObjectRef| graph.registers(x, c) <==> before.registers(x, c) by {}
            graph.lemma_same_index(before);
        }
        Ok(action)
    }

    /// Starts a fetch of a remote object: `Remote(a)` becomes `Pulling(a)`
    /// and the pull from `a` is to be requested. In any other state nothing
    /// changes and nothing is to be requested, so an object that is already
    /// being pulled is never pulled twice.
    pub fn start_pull(&self, graph: &mut Graph) -> (r: Action)
        requires
            old(graph).wf(),
            old(graph).holds(*self),
        ensures
            final(graph).wf(),
            self.applied(*old(graph), *final(graph), Event::StartPull, Ok(r)),
    {
        match self.handle_event(graph, Event::StartPull) {
            Ok(a) => a,
            Err(_) => Action::Nothing,
        }
    }

    /// The believed owner replied that it does not hold the object: a remote
    /// or pulling object becomes `RemoteRedirecting` and the coordinator is to
    /// be asked for its placement. Refused in every other state.
    pub fn transfer_failed_not_here(&self, graph: &mut Graph) -> (r: Result<Action, GraphError>)
        requires
            old(graph).wf(),
            old(graph).holds(*self),
        ensures
            final(graph).wf(),
            self.applied(*old(graph), *final(graph), Event::TransferFailedNotHere, r),
    {
        self.handle_event(graph, Event::TransferFailedNotHere)
    }

    /// The coordinator named the owner `addr`: a `RemoteRedirecting` object
    /// becomes `Pulling(addr)` when `pull_now`, with the pull to be
    /// requested, and `Remote(addr)` otherwise. Refused in every other state.
    pub fn placement_resolved(&self, graph: &mut Graph, addr: WorkerAddress, pull_now: bool) -> (r: Result<Action, GraphError>)
        requires
            old(graph).wf(),
            old(graph).holds(*self),
        ensures
            final(graph).wf(),
            self.applied(*old(graph), *final(graph), Event::PlacementResolved(addr, pull_now), r),
    {
        self.handle_event(graph, Event::PlacementResolved(addr, pull_now))
    }

    /// Constructs a data object with an empty consumer set and registers it
    /// in `graph` under `id`; refused when `id` is already registered.
    pub fn new(
        graph: &mut Graph,
        id: DataObjectId,
        state: DataObjectState,
        obj_type: DataObjectType,
        keep: KeepPolicy,
        size: Option<usize>,
        label: String,
    ) -> (r: Result<DataObjectRef, GraphError>)
        requires
            old(graph).wf(),
        ensures
            final(graph).wf(),
            old(graph).id_index().contains_key(id) <==> r is Err,
            r is Err ==> r == Err::<DataObjectRef, GraphError>(GraphError::DuplicateId) && *final(graph) == *old(graph),
            r matches Ok(h) ==> {
                &&& h.spec_index() == old(graph).num_objects()
                &&& final(graph).num_objects() == old(graph).num_objects() + 1
                &&& forall|i: int| 0 <= i < old(graph).num_objects() ==> final(graph).object(i) == old(graph).object(i)
                &&& h.obj(*final(graph)).spec_id() == id
                &&& h.obj(*final(graph)).spec_state() == state
                &&& h.obj(*final(graph)).spec_obj_type() == obj_type
                &&& h.obj(*final(graph)).spec_keep() == keep
                &&& h.obj(*final(graph)).spec_size() == size
                &&& h.obj(*final(graph)).spec_label() == label@
                &&& h.obj(*final(graph)).spec_consumers() == Set::<TaskId>::empty()
                &&& final(graph).id_index() == old(graph).id_index().insert(id, h)
            },
    {
        graph.register_object(id, state, obj_type, keep, size, label)
    }

    /// Whether the object's bytes are available locally.
    pub fn is_finished(&self, graph: &Graph) -> (r: bool)
        requires
            graph.wf(),
            graph.holds(*self),
        ensures
            r == is_finished_state(self.obj(*graph).spec_state()),
    {
        match &graph.objects[self.index].state {
            DataObjectState::Finished(_) => true,
            _ => false,
        }
    }

    /// Stores the object's bytes: an assigned or pulling object becomes
    /// `Finished(data)`. Finishing a finished object is refused with
    /// `AlreadyFinished` and keeps the stored data; a remote or redirecting
    /// object is refused with `InvalidTransition`.
    pub fn set_finished(&self, graph: &mut Graph, data: Data) -> (r: Result<(), GraphError>)
        requires
            old(graph).wf(),
            old(graph).holds(*self),
        ensures
            final(graph).wf(),
            self.applied(
                *old(graph),
                *final(graph),
                Event::TransferSucceeded(data),
                match r {
                    Ok(_) => Ok::<Action, GraphError>(Action::Nothing),
                    Err(e) => Err::<Action, GraphError>(e),
                },
            ),
            is_finished_state(self.obj(*old(graph)).spec_state()) <==> r == Err::<(), GraphError>(
                GraphError::AlreadyFinished,
            ),
            r is Ok ==> self.obj(*final(graph)).spec_state() == DataObjectState::Finished(data),
    {
        match self.handle_event(graph, Event::TransferSucceeded(data)) {
            Ok(_) => Ok(()),
            Err(e) => Err(e),
        }
    }

    /// The object's bytes; refused with `NotFinished` unless it is finished.
    pub fn get_data<'a>(&self, graph: &'a Graph) -> (r: Result<&'a Data, GraphError>)
        requires
            graph.wf(),
            graph.holds(*self),
        ensures
            match self.obj(*graph).spec_state() {
                DataObjectState::Finished(d) => r matches Ok(x) && *x == d,
                _ => r == Err::<&Data, GraphError>(GraphError::NotFinished),
            },
    {
        match &graph.objects[self.index].state {
            DataObjectState::Finished(d) => Ok(d),
            _ => Err(GraphError::NotFinished),
        }
    }

    /// Adds task `t` to the object's consumers; returns whether it was absent.
    /// A task added twice is a consumer once.
    pub fn add_consumer(&self, graph: &mut Graph, t: TaskId) -> (r: bool)
        requires
            old(graph).wf(),
            old(graph).holds(*self),
        ensures
            final(graph).wf(),
            old(graph).same_except(*final(graph), *self),
            self.obj(*final(graph)).same_but_consumers(self.obj(*old(graph))),
            self.obj(*final(graph)).spec_consumers() == self.obj(*old(graph)).spec_consumers().insert(t),
            r == !self.obj(*old(graph)).spec_consumers().contains(t),
    {
        let ghost before = *graph;
        let r = graph.objects[self.index].consumers.insert(t);
        proof {
            self.lemma_consumer_update_keeps_index(before, *graph);
        }
        r
    }

    /// Removes task `t` from the object's consumers; returns whether it was
    /// present. Removing a task that is no consumer changes nothing.
    pub fn remove_consumer(&self, graph: &mut Graph, t: TaskId) -> (r: bool)
        requires
            old(graph).wf(),
            old(graph).holds(*self),
        ensures
            final(graph).wf(),
            old(graph).same_except(*final(graph), *self),
            self.obj(*final(graph)).same_but_consumers(self.obj(*old(graph))),
            self.obj(*final(graph)).spec_consumers() == self.obj(*old(graph)).spec_consumers().remove(t),
            r == self.obj(*old(graph)).spec_consumers().contains(t),
    {
        let ghost before = *graph;
        let r = graph.objects[self.index].consumers.remove(t);
        proof {
            self.lemma_consumer_update_keeps_index(before, *graph);
        }
        r
    }

    proof fn lemma_consumer_update_keeps_index(self, before: Graph, after: Graph)
        requires
            before.wf(),
            before.holds(self),
            after.registered@ == before.registered@,
            after.objects@.len() == before.objects@.len(),
            after.objects@[self.spec_index()].id == before.objects@[self.spec_index()].id,
            after.objects@[self.spec_index()].consumers.wf(),
            forall|k: int| 0 <= k < after.objects@.len() && k != self.spec_index()
                ==> after.objects@[k] == before.objects@[k],
        ensures
            after.wf(),
            before.same_except(after, self),
    {
        assert forall|k: int| 0 <= k < after.objects@.len() implies (#[trigger] after.objects@[k]).wf() by {
            if k != self.spec_index() {
                assert(after.objects@[k] == before.objects@[k]);
            }
        }
        assert forall|i: int, j: int|
            0 <= i < after.objects@.len() && 0 <= j < after.objects@.len() && after.registered@[i]
                && after.registered@[j] && #[trigger] after.objects@[i].id == #[trigger] after.objects@[j].id
                implies i == j by {
            if i != self.spec_index() {
                assert(after.objects@[i] == before.objects@[i]);
            }
            if j != self.spec_index() {
                assert(after.objects@[j] == before.objects@[j]);
            }
        }
        assert(after.wf());
        assert forall|x: DataObjectId, c: DataObjectRef| after.registers(x, c) <==> before.registers(x, c) by {
            if 0 <= c.spec_index() < after.objects@.len() && c.spec_index() != self.spec_index() {
                assert(after.objects@[c.spec_index()] == before.objects@[c.spec_index()]);
            }
        }
        after.lemma_same_index(before);
    }

    /// The object's consumers, each once, in no particular order.
    pub fn consumers(&self, graph: &Graph) -> (r: Vec<TaskId>)
        requires
            graph.wf(),
            graph.holds(*self),
        ensures
            r@.no_duplicates(),
            r@.to_set() == self.obj(*graph).spec_consumers(),
    {
        graph.objects[self.index].consumers.to_vec()
    }

    /// Whether no task consumes the object any more.
    pub fn has_no_consumers(&self, graph: &Graph) -> (r: bool)
        requires
            graph.wf(),
            graph.holds(*self),
        ensures
            r == (self.obj(*graph).spec_consumers() == Set::<TaskId>::empty()),
    {
        graph.objects[self.index].consumers.is_empty()
    }

    pub fn id(&self, graph: &Graph) -> (r: DataObjectId)
        requires
            graph.holds(*self),
        ensures
            r == self.obj(*graph).spec_id(),
    {
        graph.objects[self.index].id
    }

    pub fn size(&self, graph: &Graph) -> (r: Option<usize>)
        requires
            graph.holds(*self),
        ensures
            r == self.obj(*graph).spec_size(),
    {
        graph.objects[self.index].size
    }

    pub fn obj_type(&self, graph: &Graph) -> (r: DataObjectType)
        requires
            graph.holds(*self),
        ensures
            r == self.obj(*graph).spec_obj_type(),
    {
        graph.objects[self.index].obj_type
    }

    pub fn keep(&self, graph: &Graph) -> (r: KeepPolicy)
        requires
            graph.holds(*self),
        ensures
            r == self.obj(*graph).spec_keep(),
    {
        graph.objects[self.index].keep
    }

    pub fn label<'a>(&self, graph: &'a Graph) -> (r: &'a str)
        requires
            graph.holds(*self),
        ensures
            r@ == self.obj(*graph).spec_label(),
    {
        graph.objects[self.index].label.as_str()
    }

    pub fn state<'a>(&self, graph: &'a Graph) -> (r: &'a DataObjectState)
        requires
            graph.holds(*self),
        ensures
            *r == self.obj(*graph).spec_state(),
    {
        &graph.objects[self.index].state
    }
}

/// An event applied to a finished object leaves its state, and so the data
/// that `get_data` returns, as it was.
pub proof fn lemma_event_keeps_finished(
    h: DataObjectRef,
    g0: Graph,
    g1: Graph,
    e: Event,
    r: Result<Action, GraphError>,
)
    requires
        h.applied(g0, g1, e, r),
        is_finished_state(h.obj(g0).spec_state()),
    ensures
        h.obj(g1).spec_state() == h.obj(g0).spec_state(),
{
}

} // verus!
