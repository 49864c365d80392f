//! A schema-driven full-text indexing and retrieval layer over tantivy.
//!
//! An index is created from a list of field names, one of which is the
//! display field: its raw text is stored and returned as the search result.
//! Documents are field-name to text mappings; keys outside the schema are
//! dropped silently.  Documents become visible to searchers only at an
//! explicit commit boundary, either one at a time or through a batch writer.

pub mod errors;
pub mod model;
pub mod backend;
pub mod wrappers;

pub use errors::IndexError;
pub use wrappers::BatchIndexer;
pub use wrappers::TantivyIndexWrapper;
