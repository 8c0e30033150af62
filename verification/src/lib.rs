//! Two cooperating services for a time-boxed competition: a user registry that
//! signs audience-bound tokens, and a competition coordinator that accepts
//! submissions from verified users and releases its secrets only to the
//! attested evaluation program once the deadline has passed.

pub mod competition;
pub mod context;
pub mod string_map;
pub mod token;
pub mod user_registry;
