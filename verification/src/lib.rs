//! Watches a set of named target networks: each network definition describes
//! where to fetch that network's membership registry, where to mirror it on
//! disk, and how often to resync.  A supervisor owns the running definitions,
//! enforces the batch-validation and protected-name rules on start/stop
//! requests, and projects the registry to a persistable snapshot.

pub mod backend_api;
pub mod clients;
pub mod contracts;
pub mod definition;
pub mod management_types;
pub mod node_metrics;
pub mod notification;
pub mod release;
pub mod running;
pub mod supervisor;
pub mod worker;
