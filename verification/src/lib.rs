//! Storage core of a small columnar data engine: a fixed-width little-endian
//! column encoding, a bit-packed null-presence mask, a typed catalog that
//! describes the physical layout of a segment, and a memory-mapped decoder
//! that serves typed column vectors after validating type and bounds.

pub mod catalog;
pub mod col_file;
pub mod column_decoder;
pub mod metadata;
