//! The logic of a platform for objects that are spread over several environments.
//!
//! - [`netsim`], [`router`], [`crm`] and [`pm`]: the simulation of a network between
//!   environments, and how it is controlled from a single link up to a whole platform. `pm`
//!   also holds the reverse proxy in front of the gateways.
//! - [`wasm`]: where modules come from, how they are pulled from a registry, and which of
//!   them are kept.
//! - [`models`] and [`dev_server`]: packages and deployments, and the collections,
//!   environments and answers that a local server makes of them.
//! - [`canvas`]: a game of life on a canvas that is stored in tiles.
//! - [`events`]: what changed on an object.
//! - [`text`], [`keyed`], [`text_map`], [`json`] and [`web`]: what the others are built on.
//!
//! The modules whose names end in `laws` state what holds of the models across operations, and
//! those called `results` what holds of whatever the functions give back.
pub mod canvas;
pub mod crm;
pub mod dev_server;
pub mod events;
pub mod json;
pub mod keyed;
pub mod models;
pub mod netsim;
pub mod pm;
pub mod router;
pub mod text;
pub mod text_map;
pub mod wasm;
pub mod web;
