//! Batch transcoding of a directory tree: the decisions of the batch, proved.

pub mod cleanup;
pub mod discovery;
pub mod driver;
pub mod job;
pub mod path;
pub mod text;
