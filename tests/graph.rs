use rain_worker::{
    Action, Data, DataObjectId, DataObjectRef, DataObjectState, DataObjectType, Graph, GraphError,
    KeepPolicy, RcSet, TaskId, WorkerAddress,
};

fn w2() -> WorkerAddress {
    WorkerAddress::new(0xffff_0a00_0002, 9010)
}

fn w3() -> WorkerAddress {
    WorkerAddress::new(0xffff_0a00_0003, 9010)
}

fn make(g: &mut Graph, id: i32, state: DataObjectState) -> DataObjectRef {
    DataObjectRef::new(
        g,
        DataObjectId::new(1, id),
        state,
        DataObjectType::Blob,
        KeepPolicy::Discard,
        None,
        String::from("out"),
    )
    .unwrap()
}

#[test]
fn is_finished_only_in_finished_state() {
    let mut g = Graph::new();
    let a = make(&mut g, 1, DataObjectState::Assigned);
    let r = make(&mut g, 2, DataObjectState::Remote(w2()));
    let rr = make(&mut g, 3, DataObjectState::RemoteRedirecting);
    let p = make(&mut g, 4, DataObjectState::Pulling(w2()));
    let f = make(&mut g, 5, DataObjectState::Finished(Data::new(vec![1, 2])));
    assert!(!a.is_finished(&g));
    assert!(!r.is_finished(&g));
    assert!(!rr.is_finished(&g));
    assert!(!p.is_finished(&g));
    assert!(f.is_finished(&g));
}

#[test]
fn get_data_fails_unless_finished() {
    let mut g = Graph::new();
    let a = make(&mut g, 1, DataObjectState::Assigned);
    let r = make(&mut g, 2, DataObjectState::Remote(w2()));
    let rr = make(&mut g, 3, DataObjectState::RemoteRedirecting);
    let p = make(&mut g, 4, DataObjectState::Pulling(w2()));
    assert_eq!(a.get_data(&g).unwrap_err(), GraphError::NotFinished);
    assert_eq!(r.get_data(&g).unwrap_err(), GraphError::NotFinished);
    assert_eq!(rr.get_data(&g).unwrap_err(), GraphError::NotFinished);
    assert_eq!(p.get_data(&g).unwrap_err(), GraphError::NotFinished);
}

#[test]
fn get_data_is_repeatable() {
    let mut g = Graph::new();
    let p = make(&mut g, 1, DataObjectState::Pulling(w2()));
    assert_eq!(p.set_finished(&mut g, Data::new(vec![7, 8, 9])), Ok(()));
    assert_eq!(p.get_data(&g).unwrap().bytes(), &[7u8, 8, 9][..]);
    assert_eq!(p.get_data(&g).unwrap().bytes(), &[7u8, 8, 9][..]);
    assert_eq!(p.get_data(&g).unwrap().len(), 3);
}

#[test]
fn finishing_twice_is_refused_and_keeps_data() {
    let mut g = Graph::new();
    let a = make(&mut g, 1, DataObjectState::Assigned);
    assert_eq!(a.set_finished(&mut g, Data::new(vec![1])), Ok(()));
    assert_eq!(a.set_finished(&mut g, Data::new(vec![2])), Err(GraphError::AlreadyFinished));
    assert_eq!(a.get_data(&g).unwrap().bytes(), &[1u8][..]);
}

#[test]
fn no_event_leaves_finished() {
    let mut g = Graph::new();
    let f = make(&mut g, 1, DataObjectState::Finished(Data::new(vec![5])));
    assert_eq!(f.start_pull(&mut g), Action::Nothing);
    assert_eq!(f.transfer_failed_not_here(&mut g), Err(GraphError::InvalidTransition));
    assert_eq!(f.placement_resolved(&mut g, w3(), true), Err(GraphError::InvalidTransition));
    assert_eq!(f.set_finished(&mut g, Data::new(vec![6])), Err(GraphError::AlreadyFinished));
    assert!(f.is_finished(&g));
    assert_eq!(f.get_data(&g).unwrap().bytes(), &[5u8][..]);
}

#[test]
fn register_under_fresh_id() {
    let mut g = Graph::new();
    let id = DataObjectId::new(3, 14);
    assert_eq!(g.lookup_object(id), None);
    let h = DataObjectRef::new(
        &mut g,
        id,
        DataObjectState::Assigned,
        DataObjectType::Directory,
        KeepPolicy::Keep,
        Some(1024),
        String::from("input.txt"),
    )
    .unwrap();
    assert_eq!(g.lookup_object(id), Some(h));
    assert!(g.contains(id));
    assert_eq!(h.id(&g), id);
    assert_eq!(h.size(&g), Some(1024));
    assert_eq!(h.obj_type(&g), DataObjectType::Directory);
    assert_eq!(h.keep(&g), KeepPolicy::Keep);
    assert_eq!(h.label(&g), "input.txt");
    assert!(matches!(h.state(&g), DataObjectState::Assigned));
    assert!(h.has_no_consumers(&g));
}

#[test]
fn register_duplicate_id_is_refused() {
    let mut g = Graph::new();
    let first = make(&mut g, 1, DataObjectState::Assigned);
    let second = g.register_object(
        DataObjectId::new(1, 1),
        DataObjectState::RemoteRedirecting,
        DataObjectType::Stream,
        KeepPolicy::Keep,
        None,
        String::from("other"),
    );
    assert_eq!(second, Err(GraphError::DuplicateId));
    assert_eq!(g.lookup_object(DataObjectId::new(1, 1)), Some(first));
    assert!(matches!(first.state(&g), DataObjectState::Assigned));
    // same number in another session is another id
    let other = make(&mut g, 2, DataObjectState::Assigned);
    assert_ne!(other, first);
}

#[test]
fn remove_object_evicts_the_entry() {
    let mut g = Graph::new();
    let id = DataObjectId::new(1, 1);
    let h = make(&mut g, 1, DataObjectState::Assigned);
    assert_eq!(g.remove_object(id), Some(h));
    assert_eq!(g.lookup_object(id), None);
    assert_eq!(g.remove_object(id), None);
    // the handle still reaches the object
    assert_eq!(h.id(&g), id);
    let again = make(&mut g, 1, DataObjectState::Assigned);
    assert_eq!(g.lookup_object(id), Some(again));
}

#[test]
fn consumer_added_twice_is_member_once() {
    let mut g = Graph::new();
    let h = make(&mut g, 1, DataObjectState::Assigned);
    let t = TaskId::new(1, 100);
    assert!(h.add_consumer(&mut g, t));
    assert!(!h.add_consumer(&mut g, t));
    assert_eq!(h.consumers(&g), vec![t]);
}

#[test]
fn removing_absent_consumer_is_no_op() {
    let mut g = Graph::new();
    let h = make(&mut g, 1, DataObjectState::Assigned);
    let t = TaskId::new(1, 100);
    let u = TaskId::new(1, 101);
    assert!(!h.remove_consumer(&mut g, u));
    assert!(h.has_no_consumers(&g));
    assert!(h.add_consumer(&mut g, t));
    assert!(!h.remove_consumer(&mut g, u));
    assert_eq!(h.consumers(&g), vec![t]);
    assert!(h.remove_consumer(&mut g, t));
    assert!(h.has_no_consumers(&g));
}

#[test]
fn redirect_then_resolve_to_remote() {
    let mut g = Graph::new();
    let id = DataObjectId::new(1, 7);
    let h = make(&mut g, 7, DataObjectState::Remote(w2()));
    assert!(!h.is_finished(&g));
    assert_eq!(h.transfer_failed_not_here(&mut g), Ok(Action::RequestPlacement(id)));
    assert!(matches!(h.state(&g), DataObjectState::RemoteRedirecting));
    assert!(!h.is_finished(&g));
    assert_eq!(h.placement_resolved(&mut g, w3(), false), Ok(Action::Nothing));
    assert!(matches!(h.state(&g), DataObjectState::Remote(a) if *a == w3()));
    assert!(!h.is_finished(&g));
}

#[test]
fn redirect_then_resolve_to_pulling() {
    let mut g = Graph::new();
    let id = DataObjectId::new(1, 7);
    let h = make(&mut g, 7, DataObjectState::Remote(w2()));
    assert_eq!(h.start_pull(&mut g), Action::RequestPull(w2(), id));
    assert!(matches!(h.state(&g), DataObjectState::Pulling(a) if *a == w2()));
    assert_eq!(h.transfer_failed_not_here(&mut g), Ok(Action::RequestPlacement(id)));
    assert!(!h.is_finished(&g));
    assert_eq!(h.placement_resolved(&mut g, w3(), true), Ok(Action::RequestPull(w3(), id)));
    assert!(matches!(h.state(&g), DataObjectState::Pulling(a) if *a == w3()));
    assert!(!h.is_finished(&g));
}

#[test]
fn assigned_finishes_directly() {
    let mut g = Graph::new();
    let h = make(&mut g, 1, DataObjectState::Assigned);
    assert_eq!(h.set_finished(&mut g, Data::new(vec![10, 20, 30])), Ok(()));
    assert!(h.is_finished(&g));
    assert_eq!(h.get_data(&g).unwrap().bytes(), &[10u8, 20, 30][..]);
}

#[test]
fn two_consumers_of_pulling_object() {
    let mut g = Graph::new();
    let h = make(&mut g, 1, DataObjectState::Pulling(w2()));
    let t1 = TaskId::new(1, 1);
    let t2 = TaskId::new(1, 2);
    assert!(h.add_consumer(&mut g, t1));
    assert_eq!(h.start_pull(&mut g), Action::Nothing);
    assert!(h.add_consumer(&mut g, t2));
    assert_eq!(h.start_pull(&mut g), Action::Nothing);
    assert_eq!(h.set_finished(&mut g, Data::new(vec![4])), Ok(()));
    let mut c = h.consumers(&g);
    c.sort_by_key(|t| t.id);
    assert_eq!(c, vec![t1, t2]);
}

#[test]
fn invalid_transitions_are_refused() {
    let mut g = Graph::new();
    let a = make(&mut g, 1, DataObjectState::Assigned);
    let r = make(&mut g, 2, DataObjectState::Remote(w2()));
    let rr = make(&mut g, 3, DataObjectState::RemoteRedirecting);
    assert_eq!(a.transfer_failed_not_here(&mut g), Err(GraphError::InvalidTransition));
    assert_eq!(a.placement_resolved(&mut g, w3(), false), Err(GraphError::InvalidTransition));
    assert_eq!(r.set_finished(&mut g, Data::new(vec![1])), Err(GraphError::InvalidTransition));
    assert_eq!(r.placement_resolved(&mut g, w3(), false), Err(GraphError::InvalidTransition));
    assert_eq!(rr.set_finished(&mut g, Data::new(vec![1])), Err(GraphError::InvalidTransition));
    assert_eq!(rr.start_pull(&mut g), Action::Nothing);
    assert_eq!(a.start_pull(&mut g), Action::Nothing);
    assert!(matches!(a.state(&g), DataObjectState::Assigned));
    assert!(matches!(r.state(&g), DataObjectState::Remote(x) if *x == w2()));
    assert!(matches!(rr.state(&g), DataObjectState::RemoteRedirecting));
}

#[test]
fn rcset_insert_remove() {
    let mut s = RcSet::new();
    let t = TaskId::new(2, 5);
    assert!(s.is_empty());
    assert!(!s.contains(t));
    assert!(s.insert(t));
    assert!(!s.insert(t));
    assert_eq!(s.len(), 1);
    assert!(s.contains(t));
    assert!(!s.remove(TaskId::new(2, 6)));
    assert_eq!(s.len(), 1);
    assert!(s.remove(t));
    assert!(!s.remove(t));
    assert!(s.is_empty());
    assert_eq!(s.to_vec(), Vec::<TaskId>::new());
}
