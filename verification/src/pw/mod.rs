//! The PipeWire side of the mixer: the messages exchanged with the
//! PipeWire thread, the mirrored audio graph, the registry bookkeeping and
//! the properties of the objects the mixer creates.

pub mod graph;
pub mod link_factory;
pub mod message;
pub mod node_factory;
pub mod peak_monitor;
pub mod registry;
