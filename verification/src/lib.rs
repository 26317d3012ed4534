//! Lifecycle of full-text index handles that callers share by path.
//!
//! An index lives in a directory and is addressed by the directory's path.
//! The caller owns two registries, one of writer handles and one of
//! readers, and hands them to the operations of `lifecycle`. A path has at
//! most one writer handle at any time; creating the index anew retires
//! what was registered for its path first.

pub mod engine;
pub mod error;
pub mod laws;
pub mod lifecycle;
pub mod model;
pub mod path;
pub mod reader_cache;
pub mod schema;
pub mod string_map;
pub mod writer;
pub mod writer_cache;

pub use crate::error::{Operation, SearchError};
pub use crate::lifecycle::{
    commit_index, create_index, create_index_with_parameter, delete_row_ids, free_index_reader,
    free_index_writer, index_multi_column_docs, retire_index_writer, settle_drain,
};
pub use crate::reader_cache::ReaderCache;
pub use crate::schema::{TokenizerConfig, TokenizerMap};
pub use crate::writer::{RowTerm, WriterHandle};
pub use crate::writer_cache::WriterCache;
