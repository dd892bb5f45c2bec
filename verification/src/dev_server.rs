//! The local development server: a package, run in one or more simulated environments.
pub mod banner;
pub mod config;
pub mod environments;
pub mod laws;
pub mod results;
pub mod server_laws;
pub mod stub_api;
