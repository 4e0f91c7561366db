//! The node: cluster membership, the leader and replica roles, and the
//! runtime that dispatches events to them.

pub mod messages;
pub mod cluster;
pub mod table;
pub mod sends;
pub mod leader;
pub mod replica;
pub mod runtime;
pub mod bully;
pub mod laws;
