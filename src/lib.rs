//! An in-memory URL shortener: random four-character codes, an append-only
//! table from codes to long links, and the decisions behind its two endpoints.

pub mod code;
pub mod table;
pub mod payload;
pub mod service;
