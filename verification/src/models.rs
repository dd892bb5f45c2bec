//! Packages, classes, functions and deployments.
pub mod deployment;
pub mod enums;
pub mod laws;
pub mod package;
pub mod results;
