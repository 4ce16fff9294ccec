//! A configuration-management engine core: the task reconciliation protocol,
//! the per-run outcome counters and the host batch orchestration that drives
//! resource modules through the protocol.
pub mod protocol;
pub mod response;
pub mod visitor;
pub mod context;
pub mod handle;
pub mod engine;
pub mod shell;
pub mod summary;
pub mod text;
pub mod cli;
