//! Manage ephemeral PostgreSQL data clusters: version handling, runtime
//! selection, lock-state bookkeeping, coordination of concurrent users, and
//! the decisions behind backup and restore.

pub mod text;
pub mod version;
pub mod config;
pub mod runtime;
pub mod lock;
pub mod coordinate;
pub mod cluster;
pub mod backup;
pub mod util;
pub mod args;
