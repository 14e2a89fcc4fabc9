//! The requests that users make, each checked against the access policy before
//! the store carries it out.
pub mod auth;
pub mod boards;
pub mod cards;
pub mod columns;
pub mod comments;
pub mod inbox;
pub mod tags;
