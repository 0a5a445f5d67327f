//! What can go wrong while persisting.

use crate::outside::{parquet_error_chars, parquet_error_text};
use crate::text::joined;
use parquet::errors::ParquetError;
use vstd::prelude::*;

verus! {

/// The kinds of failure, each with a message.
#[derive(Debug, PartialEq, Eq)]
pub enum PersistError {
    /// A setting that cannot be used.
    Other(String),
    /// The file format refused a schema or a column.
    ParquetError(String),
    /// A file or a directory could not be made or written.
    IOError(String),
    /// A row missed fields, or a field did not match its column's type.
    Invariant(String),
}

impl PersistError {
    /// The error that stands for one of the file format: it carries that
    /// error's text.
    pub fn from(err: ParquetError) -> (error: Self)
        ensures
            error matches PersistError::ParquetError(text) && text@ == parquet_error_chars(err),
    {
        PersistError::ParquetError(parquet_error_text(&err))
    }

    /// The error as a text: its kind, then its message.
    pub open spec fn chars(&self) -> Seq<char> {
        match *self {
            PersistError::Other(text) => "other error: "@ + text@,
            PersistError::ParquetError(text) => "parquet error: "@ + text@,
            PersistError::IOError(text) => "io error: "@ + text@,
            PersistError::Invariant(text) => "invariant error: "@ + text@,
        }
    }

    /// The error as a text: its kind, then its message.
    pub fn to_string(&self) -> (text: String)
        ensures
            text@ == self.chars(),
    {
        match self {
            PersistError::Other(text) => joined("other error: ", text.as_str()),
            PersistError::ParquetError(text) => joined("parquet error: ", text.as_str()),
            PersistError::IOError(text) => joined("io error: ", text.as_str()),
            PersistError::Invariant(text) => joined("invariant error: ", text.as_str()),
        }
    }
}

} // verus!
