//! Decision core of a readiness reactor: a worker that maps readiness events of
//! watched descriptors, identified by one-byte tags, to the tasks waiting on them,
//! and that applies registration commands received over a control channel.

pub mod laws;
pub mod lifecycle;
pub mod reactor;
