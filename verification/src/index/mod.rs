//! The search index: its schema, the documents that records become, the searches that find them,
//! and the generations in which an index is published.

pub mod document;
pub mod generation;
pub mod layout;
pub mod page;
pub mod search;
