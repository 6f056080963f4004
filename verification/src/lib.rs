//! Resolution of POSIX passwd records from a remote identity directory,
//! with a durable local cache for offline fallback and lazy allocation of
//! numeric user IDs for directory identities that do not carry one yet.
//!
//! The library holds the decision logic alone: the resolver is a state
//! machine that asks its caller to perform each outside effect (read the
//! configuration, query the directory, read the cache, probe a candidate
//! UID, write an attribute back) and consumes the outcome as an event.

pub mod api_types;
pub mod cache;
pub mod config;
pub mod numeric;
pub mod passwd;
pub mod resolver;
pub mod session;
pub mod token;
