//! WASM modules: where they come from, how they are pulled and how they are cached.
pub mod challenge;
pub mod fetch;
pub mod laws;
pub mod oci;
pub mod pull;
pub mod results;
pub mod store;
