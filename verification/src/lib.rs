//! Verified core of a multi-tenant microVM control plane.
//!
//! The library owns the tenant state machine, the /30 subnet allocator,
//! the durable tenant catalog, the hypervisor request plans, the host
//! network command plans and the header-keyed proxy routing decision.
//! All process spawning, HTTP serving and shell execution live outside
//! the library, which hands plans out and takes results back as plain
//! values.

pub mod auth;
pub mod clock;
pub mod db;
pub mod errors;
pub mod firecracker;
pub mod host;
pub mod manager;
pub mod network;
pub mod proxy;
pub mod snapshot;
pub mod strutil;
pub mod table;
pub mod tenant;
