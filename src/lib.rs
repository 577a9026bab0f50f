//! A local media catalog: a relational store of videos, movies, tv shows and
//! persons, with idempotent, atomic upserts of remote metadata documents, an
//! ingestion state machine that resolves referenced persons and images, and a
//! typed query layer.

pub mod concat;
pub mod model;
pub mod store;
pub mod upsert;
pub mod tv;
pub mod video;
pub mod query;
pub mod ingest;
pub mod filename;
pub mod probe;
pub mod media;
pub mod integrity;
pub mod like;
pub mod collection;
pub mod listing;
pub mod tvlisting;
pub mod personlisting;
