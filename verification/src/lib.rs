//! memex: transcripts of coding assistants made searchable.
//!
//! What the sources hold becomes records, records become documents of a search index, and the index
//! is published in generations. Reading and writing are left to the program around this crate.

pub mod config;
pub mod herdr;
pub mod index;
pub mod json;
pub mod sources;
pub mod state;
pub mod text;
pub mod text_map;
pub mod types;
pub mod usage;
