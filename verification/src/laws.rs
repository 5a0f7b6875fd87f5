//! What the library promises, in plain terms.
//!
//! Each law says what comes out for what goes in, by characters, digits, bits and bytes,
//! so that it can be read without the definitions that the contracts are built on.

/// What the bodies of responses hold, and how they end.
pub mod bodies;

/// What becomes of values in typed columns.
pub mod cells;

/// What stands in CSV.
pub mod csv;

/// What stands in Parquet files.
pub mod files;

/// Numbers in digits and in bits.
pub mod numbers;

/// What requests ask for, and what they are told.
pub mod requests;

/// The statistics of the server.
pub mod statistics;

/// Characters, words and white space.
pub mod texts;

/// The types of columns.
pub mod types;
