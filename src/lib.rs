//! Consumer-group offset management for a publish/subscribe log broker:
//! resolving reset targets into per-partition offsets, choosing the
//! partitions a reset applies to, driving a reset against the broker, and
//! reading group state.

pub mod cli;
pub mod config;
pub mod error;
pub mod groups;
pub mod messages;
pub mod offsets;
pub mod reset;
pub mod reset_lemmas;
pub mod topics;
