//! Columns: their data types, their roles, and how a value infers them.

use vstd::prelude::*;
use crate::value::DynamicValue;

verus! {

/// The data type of a column.
#[derive(Clone, Copy, Debug, PartialEq, Eq, Structural)]
pub enum DataType {
    Int64,
    Float64,
    String,
    Boolean,
    TimestampMillisecond,
}

/// What a column is for.
#[derive(Clone, Copy, Debug, PartialEq, Eq, Structural)]
pub enum SemanticRole {
    Timestamp,
    Tag,
    Field,
}

/// One column of a table schema.
///
/// `data_type` is `None` for a column of a type that this library has no
/// encoding for; every cell of such a column is null.
#[derive(Clone, Debug)]
pub struct ColumnSchema {
    pub name: String,
    pub data_type: Option<DataType>,
    pub semantic_role: SemanticRole,
}

/// A column as contracts speak of it.
pub struct ColumnView {
    pub name: Seq<char>,
    pub data_type: Option<DataType>,
    pub semantic_role: SemanticRole,
}

impl View for ColumnSchema {
    type V = ColumnView;

    open spec fn view(&self) -> ColumnView {
        ColumnView { name: self.name@, data_type: self.data_type, semantic_role: self.semantic_role }
    }
}

impl DeepView for ColumnSchema {
    type V = ColumnView;

    open spec fn deep_view(&self) -> ColumnView {
        self@
    }
}

impl PartialEq for ColumnSchema {
    fn eq(&self, other: &Self) -> (equal: bool) {
        self.name == other.name && self.data_type == other.data_type && self.semantic_role
            == other.semantic_role
    }
}

impl vstd::std_specs::cmp::PartialEqSpecImpl for ColumnSchema {
    open spec fn obeys_eq_spec() -> bool {
        true
    }

    open spec fn eq_spec(&self, other: &Self) -> bool {
        self@ == other@
    }
}

/// The data type that a sample value gives its column.
pub open spec fn inferred_type(value: DynamicValue) -> DataType {
    match value {
        DynamicValue::Integer(_) => DataType::Int64,
        DynamicValue::BigInteger => DataType::Int64,
        DynamicValue::Float(_) => DataType::Float64,
        DynamicValue::Boolean(_) => DataType::Boolean,
        _ => DataType::String,
    }
}

/// Infers a column's data type from one sample value: an integer gives
/// `Int64`, a float `Float64`, a boolean `Boolean`, and everything else,
/// text included, `String`.
pub fn infer_type(value: &DynamicValue) -> (data_type: DataType)
    ensures
        data_type == inferred_type(*value),
{
    match value {
        DynamicValue::Integer(_) => DataType::Int64,
        DynamicValue::BigInteger => DataType::Int64,
        DynamicValue::Float(_) => DataType::Float64,
        DynamicValue::Boolean(_) => DataType::Boolean,
        _ => DataType::String,
    }
}

} // verus!
