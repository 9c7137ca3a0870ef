//! A gas-metered execution engine for WebAssembly contracts: the host-guest
//! boundary, the gas accounting across it, and the promise scheduler.
pub mod adapters;
pub mod args;
pub mod backend;
pub mod codec;
pub mod costs;
pub mod environment;
pub mod errors;
pub mod gas;
pub mod gatekeeper;
pub mod go;
pub mod imports;
pub mod memory;
pub mod mock;
pub mod runner;
pub mod types;
