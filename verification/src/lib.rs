//! Connection and data layer of a small real-time chat service.
//!
//! The crate provides the entity model (users, channels, messages, servers),
//! a store that enforces referential integrity across those entities, and the
//! version/format negotiation that gates a new connection before it is
//! admitted to a session.

pub mod database;
pub mod events;
pub mod model;
pub mod protocol;
mod text;
