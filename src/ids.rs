use vstd::prelude::*;

verus! {

/// Identifier of a data object: the session it belongs to and its number
/// within that session.
#[derive(Clone, Copy, Debug, PartialEq, Eq, Structural, Hash)]
pub struct DataObjectId {
    pub session_id: i32,
    pub id: i32,
}

impl DataObjectId {
    pub fn new(session_id: i32, id: i32) -> (r: DataObjectId)
        ensures
            r.session_id == session_id,
            r.id == id,
    {
        DataObjectId { session_id, id }
    }
}

/// Identifier of a task: the session it belongs to and its number within
/// that session. A task is referred to by its id wherever a handle is kept.
#[derive(Clone, Copy, Debug, PartialEq, Eq, Structural, Hash)]
pub struct TaskId {
    pub session_id: i32,
    pub id: i32,
}

impl TaskId {
    pub fn new(session_id: i32, id: i32) -> (r: TaskId)
        ensures
            r.session_id == session_id,
            r.id == id,
    {
        TaskId { session_id, id }
    }
}

/// Whether a data object is retained after its last consumer is done.
#[derive(Clone, Copy, Debug, PartialEq, Eq, Structural, Hash)]
pub enum KeepPolicy {
    Discard,
    Keep,
}

/// Network address of a peer worker: an IP address (an IPv4 address is held
/// in its IPv4-mapped IPv6 form) and a port.
#[derive(Clone, Copy, Debug, PartialEq, Eq, Structural, Hash)]
pub struct WorkerAddress {
    pub ip: u128,
    pub port: u16,
}

impl WorkerAddress {
    pub fn new(ip: u128, port: u16) -> (r: WorkerAddress)
        ensures
            r.ip == ip,
            r.port == port,
    {
        WorkerAddress { ip, port }
    }
}

} // verus!
