//! Typed persistence of records in columnar files.
//!
//! A record type lays out its leaf columns and hands out one field per leaf
//! for each value ([`Persistable`]). A [`writer::TableWriter`] takes the
//! values row by row, stages them column by column in a [`row::RowBuffer`],
//! and rolls the staged rows into files, each with the schema that the
//! first row froze. The files leave the writer as plain values; writing
//! them to disk is left to the caller.

pub mod config;
pub mod derive;
pub mod error;
pub mod feed;
pub mod field;
pub mod outside;
pub mod persist;
pub mod row;
pub mod schema;
pub mod text;
pub mod writer;

pub use crate::persist::Persistable;
