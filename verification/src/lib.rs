//! Dispatch layer in front of per-language grammar-checker worker processes.
//!
//! A worker accepts one line of text and answers with one line of JSON. This
//! crate holds everything that decides: the line codec, the per-worker
//! first-in-first-out queue, the language routing table and the parser for the
//! toggle list a worker prints in its introspection mode. Spawning processes
//! and moving bytes through pipes is left to the embedding program.

pub mod error;
pub mod codec;
pub mod json;
pub mod table;
pub mod preferences;
pub mod worker;
pub mod router;
pub mod state;
