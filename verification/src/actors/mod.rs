//! The business state of a node, kept by account and card actors behind a router.

pub mod account;
pub mod actor_router;
pub mod card;
pub mod card_laws;
pub mod laws;
pub mod messages;
pub mod model;
