//! Run-length driven take/compaction kernel over an in-memory columnar model.
//!
//! A run list of `(source_index, repeat_count)` pairs selects and repeats rows
//! of a source column or batch; the kernel materialises the selected rows as a
//! new value of the same kind. Every result is proved to be `is_take` of its
//! source at the positions the run list expands to.

pub mod runs;
pub mod bitmap;
pub mod binary;
pub mod column;
pub mod primitive;
pub mod take;
pub mod block;
pub mod laws;
