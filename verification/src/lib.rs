//! Read path of an agent's source chain: glob patterns over entry-type names,
//! the chain query that uses them, the error values of the host, and the
//! bridge that answers a sandboxed guest's `query` call.

pub mod args;
pub mod bridge;
pub mod bridge_laws;
pub mod chain;
pub mod error;
pub mod matcher;
pub mod memory;
pub mod pattern;
pub mod pattern_laws;
pub mod query_laws;
pub mod status;
pub mod text;
