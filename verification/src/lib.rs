//! A typed object mapper for a flat key-value store of hashes.
//!
//! Records with named, typed fields, which may hold records of other
//! collections, are flattened into hashes of texts, each under a key of its
//! own, and read back from what the store returns. The library decides what
//! is written and how an answer is read; sending a request and fetching the
//! answer is left to the caller.
//!
//! - [`field_types`] and [`schema`]: the shape of a field, and the schema of
//!   a collection built from its description.
//! - [`values`]: typed values and records.
//! - [`keys`]: the keys of entities, patterns and indexes.
//! - [`writing`], [`reading`] and [`parsers`]: between a typed value and the
//!   text under which it is stored.
//! - [`utils`]: flattening a record into hashes.
//! - [`pipelines`] and [`requests`]: the commands and script calls that are
//!   sent to the store.
//! - [`store_values`] and [`responses`]: what the store answers, and the
//!   records in it.
//! - [`store`] and [`collections`]: the registry of collections and the
//!   operations of one collection.
//! - [`laws`] and [`round_trip`]: what holds of all of these together.
//! - [`text`], [`numbers`] and [`errors`]: characters, decimal numbers, and
//!   failures.

pub mod text;
pub mod numbers;
pub mod keys;
pub mod errors;
pub mod field_types;
pub mod values;
pub mod parsers;
pub mod store_values;
pub mod reading;
pub mod writing;
pub mod utils;
pub mod pipelines;
pub mod collections;
pub mod requests;
pub mod responses;
pub mod schema;
pub mod store;
pub mod laws;
pub mod round_trip;
