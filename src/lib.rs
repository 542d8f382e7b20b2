//! Event distribution engine: the canonical event model, the subscription
//! filter, a bounded broadcast hub with lag handling, and the decisions of
//! the notification relay.

pub mod text;
pub mod json;
pub mod types;
pub mod filter;
pub mod hub;
pub mod relay;
