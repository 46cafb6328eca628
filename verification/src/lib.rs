//! Data model and contracts for moving a replica's application state between
//! nodes of a replicated service during checkpointing and recovery.
//!
//! Two state representations are modeled.  A *monolithic* state is one
//! serializable blob, digested over its canonical byte stream
//! ([`monolithic_state`], [`blob_state`]).  A *divisible* state is split into
//! independently addressable, hashable parts described by a descriptor, so
//! that parts can be transferred and verified one at a time and the whole
//! state re-assembled without ever shipping it at once ([`divisible_state`],
//! [`parted_state`]).  Both families share the sequence-number and envelope
//! conventions of [`ordering`] and [`maybe_vec`], and the content digests of
//! [`digest`].

pub mod blob_state;
pub mod digest;
pub mod divisible_state;
pub mod error;
pub mod maybe_vec;
pub mod monolithic_state;
pub mod ordering;
pub mod parted_state;
