//! A registry of decentralized-identity documents: one document per account,
//! mutated only by its controller, with bounded collections of linked chains,
//! public keys and service descriptors.
//!
//! The registry is a state machine. Each entry point of [`registry::Registry`]
//! is a transition whose outcome is a spec function of the state before it
//! and the request, and [`laws`] proves of those spec functions what holds of
//! every state and every caller.

pub mod bounded_list;
pub mod bounded_map;
pub mod bytes;
pub mod document;
pub mod error;
pub mod event;
pub mod laws;
pub mod origin;
pub mod primitives;
pub mod record;
pub mod registry;
pub mod store;
