//! Simulation of network faults between environments.
pub mod laws;
pub mod proxy;
pub mod results;
pub mod routes;
pub mod state;
pub mod types;
pub mod zrpc_types;
