//! Interactive review of search-engine matches with byte-exact replacement.
//!
//! The crate models the structured match protocol of a line-oriented text
//! search engine, layers per-submatch selection state over the parsed
//! matches, drives the review session as an explicit state machine, and
//! turns the accepted selections into byte-exact whole-file rewrites.

pub mod base64;
pub mod cli;
pub mod criteria;
pub mod data;
pub mod item;
pub mod message;
pub mod protocol;
pub mod replace;
pub mod session;
