//! One call from records to what is written: the schema that the first
//! record infers, and every record projected onto it.

use vstd::prelude::*;
use greptimedb_ingester::TableSchema;
use crate::infer::{is_inferred_columns, terms_to_table_schema, SchemaBuildError};
use crate::record::{malformed_part, SubMapping};
use crate::rows::{first_malformed, projected_rows, terms_to_rows, RecordDecodingError, RowBatch};
use crate::sink::{builder_accepts, schema_columns, schema_name};
use crate::value::DynamicValue;

verus! {

/// Why there is nothing to write.
#[derive(Clone, Copy, Debug, PartialEq, Eq, Structural)]
pub enum InsertError {
    /// No schema could be built.
    Schema(SchemaBuildError),
    /// A record could not be encoded.
    Record(RecordDecodingError),
}

impl InsertError {
    /// Says in words why there is nothing to write.
    pub fn message(&self) -> (text: String)
        ensures
            text@ == match self {
                InsertError::Schema(e) => match e {
                    SchemaBuildError::EmptyTableName => "the table name is empty"@,
                    SchemaBuildError::Rejected => "the schema builder rejected the table name"@,
                },
                InsertError::Record(e) => match e.part {
                    SubMapping::Tags => "the value under `tags` is not a map"@,
                    SubMapping::Fields => "the value under `fields` is not a map"@,
                },
            },
    {
        match self {
            InsertError::Schema(e) => e.message(),
            InsertError::Record(e) => e.message(),
        }
    }
}

/// The table name is one that a schema can be built for.
pub open spec fn name_is_taken(table: Seq<char>) -> bool {
    table.len() > 0 && builder_accepts(table)
}

/// Encodes the records of one insert: the first record infers the schema,
/// and all of them, the first included, are projected onto it.
///
/// No records give nothing to write, and no error whatever the table name.
/// Otherwise the schema is built first: a table name that cannot be used is
/// reported before any record is looked at.
pub fn insert_batch(table: &str, records: &Vec<DynamicValue>) -> (written: Result<
    Option<(TableSchema, RowBatch)>,
    InsertError,
>)
    ensures
        match written {
            Ok(None) => records.len() == 0,
            Ok(Some((schema, batch))) => {
                &&& records.len() > 0
                &&& name_is_taken(table@)
                &&& schema_name(schema) == table@
                &&& is_inferred_columns(records[0], schema_columns(schema))
                &&& forall|r: int|
                    0 <= r < records.len() ==> malformed_part(#[trigger] records[r]) is None
                &&& batch@.columns == schema_columns(schema)
                &&& batch@.rows == projected_rows(records@, schema_columns(schema))
                &&& batch@.rows.len() == records.len()
            },
            Err(InsertError::Schema(e)) => {
                &&& records.len() > 0
                &&& !name_is_taken(table@)
                &&& e == SchemaBuildError::EmptyTableName <==> table@.len() == 0
            },
            Err(InsertError::Record(e)) => {
                &&& name_is_taken(table@)
                &&& first_malformed(records@, e.index as int)
                &&& malformed_part(records[e.index as int]) == Some(e.part)
            },
        },
{
    if records.len() == 0 {
        return Ok(None);
    }
    let schema = match terms_to_table_schema(table, &records[0]) {
        Ok(schema) => schema,
        Err(e) => {
            return Err(InsertError::Schema(e));
        },
    };
    match terms_to_rows(&schema, records) {
        Ok(batch) => Ok(Some((schema, batch))),
        Err(e) => Err(InsertError::Record(e)),
    }
}

} // verus!
