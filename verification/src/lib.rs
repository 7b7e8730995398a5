//! Relationship-aware core of a small social platform backend.
//!
//! The crate models the persistent state (users, posts, comments and the
//! follow / block / like edges between them) as an in-memory record store
//! with a machine-checked well-formedness invariant, and verifies the three
//! layers built on top of it:
//!
//! * the relationship resolver (`checker`): point lookups of follow, block
//!   and like edges, and the four-flag view of a user pair;
//! * the visibility projector (`model`): viewer-relative DTOs with an
//!   enforced short-circuit for anonymous viewers;
//! * the mutation guard (`profiles`, `posts`, `users`): precondition checks
//!   and the exact effect of every write, with the invariant preserved.
//!
//! Password hashing is delegated to the `argon2` crate behind two trusted
//! wrappers; everything else in this crate is verified.

pub mod checker;
pub mod config;
pub mod error;
pub mod extractor;
pub mod helper;
pub mod laws;
pub mod model;
pub mod posts;
pub mod profiles;
pub mod store;
pub mod users;
