//! Orchestration core of a single-host VM control plane: collision-free allocation of
//! console ports and guest addresses, assembly of the hypervisor's argument list, settling
//! of a launch from its liveness probe, the per-VM lifecycle over a record store snapshot,
//! and the monitor protocol's commands and output cleaning. Every function is verified;
//! the operating-system side (processes, sockets, files, HTTP) is left to the caller.

pub mod api;
pub mod builder;
pub mod control;
pub mod error;
pub mod lifecycle;
pub mod models;
pub mod monitor;
pub mod names;
pub mod resources;
pub mod seed;
pub mod settings;
pub mod store;
pub mod text;
