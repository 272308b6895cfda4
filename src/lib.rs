//! Consistency and aggregation engine of a curation service: catalog items,
//! ordered collections ("ruts") of them, tags and per-user engagement marks,
//! kept in a relational model whose derived counters never drift.

pub mod error;
pub mod outside;
pub mod validate;
pub mod model;
pub mod store;
pub mod auth;
pub mod collect;
pub mod catalog;
pub mod tagstore;
pub mod tag;
pub mod star;
pub mod query;
pub mod api;
pub mod lists;
pub mod rutstar;
pub mod itemquery;
pub mod taglist;
