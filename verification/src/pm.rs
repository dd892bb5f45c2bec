//! The package manager: control of the network simulation, the gateway proxy and start-up.
pub mod bootstrap;
pub mod gateway_proxy;
pub mod gateway_laws;
pub mod laws;
pub mod netsim;
pub mod network_sim;
pub mod results;
