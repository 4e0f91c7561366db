//! Verified core of a distributed fuel-charge authorization service.

pub mod address;
pub mod bytes;
pub mod errors;
pub mod codec;
pub mod frame;
pub mod operation;
pub mod actors;
pub mod database;
pub mod node;
pub mod station;
pub mod conn_table;
pub mod record;
