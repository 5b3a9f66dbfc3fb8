//! The catalog kernel of a database: a namespace of databases and their
//! collections, the service that applies batches of administrative requests
//! to it, and the small codecs and helpers around it.
pub mod names;
pub mod namespace;
pub mod error;
pub mod apis;
pub mod universe;
pub mod supervisor;
pub mod laws;
pub mod block_handle;
pub mod args;
pub mod store;
