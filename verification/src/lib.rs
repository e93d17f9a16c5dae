//! Schema inference and row encoding for time-series ingestion.
//!
//! A caller hands over loosely typed records. The first record fixes a column
//! schema: one timestamp column, then the tag columns, then the field columns,
//! each group in ascending name order. Every record is then projected onto that
//! schema, cell by cell; a value that is absent or of another type becomes an
//! explicit null.

pub mod infer;
pub mod ingest;
pub mod names;
pub mod record;
pub mod rows;
pub mod schema;
pub mod sink;
pub mod value;

pub use crate::infer::terms_to_table_schema;
pub use crate::ingest::insert_batch;
pub use crate::rows::terms_to_rows;
