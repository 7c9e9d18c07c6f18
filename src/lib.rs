//! Keyed materialized state for a dataflow node: a single-writer, many-reader
//! map from an extracted key to the bag of rows currently held for it, with a
//! per-store version ("meta") published together with the rows.
pub mod value;
pub mod key;
pub mod table;
pub mod model;
pub mod handle;
pub mod laws;
