//! Per-worker registry of data objects: the location state machine of each
//! object, its consumer set, and the index from identifier to object.

pub mod ids;
pub mod data;
pub mod rcset;
pub mod dataobj;
pub mod graph;

pub use ids::{DataObjectId, TaskId, KeepPolicy, WorkerAddress};
pub use data::Data;
pub use rcset::RcSet;
pub use dataobj::{DataObject, DataObjectRef, DataObjectState, DataObjectType, Action, Event};
pub use graph::{Graph, GraphError};
