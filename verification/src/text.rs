//! Text operations over sequences of characters.
//!
//! A `str` is viewed as the sequence of its characters. Positions in this module
//! count characters, never bytes.
pub mod chars;
pub mod laws;
pub mod number;
pub mod order;
pub mod ordered;
pub mod results;
pub mod search;
