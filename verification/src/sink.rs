//! The table schema of `greptimedb_ingester`, as this library sees it.
//!
//! The schema is opaque here. What it holds is named by `schema_name` and
//! `schema_columns`; the functions of this file are the only ones that touch
//! it, and their contracts are taken on trust from the crate's source.

use vstd::prelude::*;
use greptimedb_ingester::api::v1::{ColumnDataType, SemanticType};
use greptimedb_ingester::TableSchema;
use crate::schema::{ColumnView, DataType, SemanticRole};

verus! {

/// `greptimedb_ingester::TableSchema`: a table name and a sequence of
/// columns. Nothing is claimed of it here but that it is a type.
#[verifier::external_type_specification]
#[verifier::external_body]
pub struct ExTableSchema(TableSchema);

/// The table name that a schema holds.
pub uninterp spec fn schema_name(schema: TableSchema) -> Seq<char>;

/// The columns that a schema holds, in their order.
pub uninterp spec fn schema_columns(schema: TableSchema) -> Seq<ColumnView>;

/// Whether the schema builder takes a table name.
pub uninterp spec fn builder_accepts(name: Seq<char>) -> bool;

/// `TableSchema::builder().name(name).build()`, with the builder's error
/// dropped. Whether the builder succeeds depends on the name alone; a schema
/// that it returns has that name and no column.
#[verifier::external_body]
pub(crate) fn build_schema(name: &str) -> (built: Option<TableSchema>)
    ensures
        built is Some <==> builder_accepts(name@),
        built matches Some(schema) ==> schema_name(schema) == name@ && schema_columns(schema).len()
            == 0,
{
    TableSchema::builder().name(name).build().ok()
}

/// `TableSchema::add_timestamp`: appends one column with the timestamp role
/// and leaves the name and the earlier columns as they were.
#[verifier::external_body]
pub(crate) fn add_timestamp(schema: TableSchema, name: &str, data_type: DataType) -> (extended:
    TableSchema)
    ensures
        schema_name(extended) == schema_name(schema),
        schema_columns(extended) == schema_columns(schema).push(
            (ColumnView {
                name: name@,
                data_type: Some(data_type),
                semantic_role: SemanticRole::Timestamp,
            }),
        ),
{
    let sink_type = match data_type {
        DataType::Int64 => ColumnDataType::Int64,
        DataType::Float64 => ColumnDataType::Float64,
        DataType::String => ColumnDataType::String,
        DataType::Boolean => ColumnDataType::Boolean,
        DataType::TimestampMillisecond => ColumnDataType::TimestampMillisecond,
    };
    schema.add_timestamp(name, sink_type)
}

/// `TableSchema::add_tag`: appends one column with the tag role and leaves
/// the name and the earlier columns as they were.
#[verifier::external_body]
pub(crate) fn add_tag(schema: TableSchema, name: &str, data_type: DataType) -> (extended:
    TableSchema)
    ensures
        schema_name(extended) == schema_name(schema),
        schema_columns(extended) == schema_columns(schema).push(
            (ColumnView { name: name@, data_type: Some(data_type), semantic_role: SemanticRole::Tag }),
        ),
{
    let sink_type = match data_type {
        DataType::Int64 => ColumnDataType::Int64,
        DataType::Float64 => ColumnDataType::Float64,
        DataType::String => ColumnDataType::String,
        DataType::Boolean => ColumnDataType::Boolean,
        DataType::TimestampMillisecond => ColumnDataType::TimestampMillisecond,
    };
    schema.add_tag(name, sink_type)
}

/// `TableSchema::add_field`: appends one column with the field role and
/// leaves the name and the earlier columns as they were.
#[verifier::external_body]
pub(crate) fn add_field(schema: TableSchema, name: &str, data_type: DataType) -> (extended:
    TableSchema)
    ensures
        schema_name(extended) == schema_name(schema),
        schema_columns(extended) == schema_columns(schema).push(
            (ColumnView {
                name: name@,
                data_type: Some(data_type),
                semantic_role: SemanticRole::Field,
            }),
        ),
{
    let sink_type = match data_type {
        DataType::Int64 => ColumnDataType::Int64,
        DataType::Float64 => ColumnDataType::Float64,
        DataType::String => ColumnDataType::String,
        DataType::Boolean => ColumnDataType::Boolean,
        DataType::TimestampMillisecond => ColumnDataType::TimestampMillisecond,
    };
    schema.add_field(name, sink_type)
}

/// `TableSchema::columns`, each column by its name and its role.
#[verifier::external_body]
pub(crate) fn column_labels(schema: &TableSchema) -> (labels: Vec<(String, SemanticRole)>)
    ensures
        labels@.len() == schema_columns(*schema).len(),
        forall|i: int|
            0 <= i < labels@.len() ==> (#[trigger] labels@[i]).0@ == schema_columns(*schema)[i].name
                && labels@[i].1 == schema_columns(*schema)[i].semantic_role,
{
    let label = |c: &greptimedb_ingester::Column| {
        let role = match c.semantic_type {
            SemanticType::Timestamp => SemanticRole::Timestamp,
            SemanticType::Tag => SemanticRole::Tag,
            SemanticType::Field => SemanticRole::Field,
        };
        (c.name.clone(), role)
    };
    schema.columns().iter().map(label).collect()
}

/// `TableSchema::columns`, each column by its data type: `None` for a type
/// other than the five that `DataType` names.
#[verifier::external_body]
pub(crate) fn column_types(schema: &TableSchema) -> (types: Vec<Option<DataType>>)
    ensures
        types@.len() == schema_columns(*schema).len(),
        forall|i: int|
            0 <= i < types@.len() ==> #[trigger] types@[i] == schema_columns(*schema)[i].data_type,
{
    let data_type = |c: &greptimedb_ingester::Column| match c.data_type {
        ColumnDataType::Int64 => Some(DataType::Int64),
        ColumnDataType::Float64 => Some(DataType::Float64),
        ColumnDataType::String => Some(DataType::String),
        ColumnDataType::Boolean => Some(DataType::Boolean),
        ColumnDataType::TimestampMillisecond => Some(DataType::TimestampMillisecond),
        _ => None,
    };
    schema.columns().iter().map(data_type).collect()
}

} // verus!
