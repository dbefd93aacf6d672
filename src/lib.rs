//! Signing core of a validator key-management service: canonical encoding of
//! consensus votes, the double-sign guard, and the signing engine that ties
//! them to a key provider.

pub mod commands;
pub mod encoding;
pub mod engine;
pub mod error;
pub mod guard;
pub mod provider;
pub mod vote;
