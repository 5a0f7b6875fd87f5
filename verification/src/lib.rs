//! Core library for `readql`: RFC 4180 CSV and Parquet serialization of query
//! results, the decisions behind the HTTP interface, and the server's statistics.

/// The body of a response, event by event.
pub mod body;

/// What column values become in typed columns.
pub mod cell;

/// What each client asked for.
pub mod clients;

/// Arrow builders and record batches.
pub mod columns;

/// CSV formatting, escaping, and record serialization.
pub mod csv;
pub use csv::CsvWriter;

/// Connection pooling and the answer to a prepared query.
pub mod db;
pub use db::ConnectionPool;

/// Double-precision numbers by their bits.
pub mod double;

/// Application error types and HTTP response conversions.
pub mod error;
pub use error::AppError;

/// The grouping of rows into the batches of a Parquet file.
pub mod export;

/// What HTTP requests ask for.
pub mod handlers;

/// What the library promises, in plain terms.
pub mod laws;

/// How large a Parquet file can become.
pub mod limits;

/// Throughput and performance statistics.
pub mod metrics;

/// The writer of Parquet files.
pub mod parquet_file;

/// Parquet serialization, schema inference, and record batch building.
pub mod parquet_format;

/// How RFC 4180 documents are read.
pub mod rfc4180;

/// Column types and their inference.
pub mod schema;

/// Query results as streams of chunks.
pub mod stream;

/// Text operations.
pub mod text;

/// The page of the web UI.
pub mod ui;

/// Column values.
pub mod value;
