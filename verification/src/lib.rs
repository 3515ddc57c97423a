//! Core of a mod-registry backend: the paginated fuzzy-search data-access
//! layer over the mods table and its separately-owned versions store, and the
//! bounded ingestion pipeline that stages uploaded packages under a size cap.
//!
//! Storage round trips and HTTP transport are collaborators outside this
//! crate; the logic here works over explicit in-memory models of the two
//! stores and over plain values handed in by the caller.

pub mod error;
pub mod ingest;
pub mod models;
pub mod pagination;
pub mod store;
pub mod text;
