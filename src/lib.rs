//! Content-addressed storage of sensor readings and provenance annotations
//! received over an encrypted publish/subscribe channel.

pub mod error;
pub mod id_map;
pub mod models;
pub mod outside;
pub mod json;
pub mod reading_store;
pub mod annotation_store;
pub mod query;
pub mod classify;
pub mod ingest;
pub mod schema;
