//! Row projection: records onto the columns of a schema.
//!
//! Each record gives one row, and each column one cell of it. A cell holds
//! what the record has for the column, decoded as the column's data type, or
//! null where the record has nothing there or has a value of another type.
//! Only a record whose `tags` or `fields` is no map stops the batch.

use vstd::prelude::*;
use greptimedb_ingester::TableSchema;
use crate::record::{column_value, is_nested, malformed_part, record_sources, SubMapping};
use crate::schema::{ColumnSchema, ColumnView, DataType};
use crate::sink::{column_labels, column_types, schema_columns};
use crate::value::{entries_of, key_name, lemma_lookup_insert, DynamicValue, MapEntry};

verus! {

/// One encoded cell.
#[derive(Clone, Debug)]
pub enum Value {
    Null,
    Int64(i64),
    /// A 64-bit float, held as its IEEE 754 bit pattern.
    Float64(u64),
    String(String),
    Boolean(bool),
    TimestampMillisecond(i64),
}

/// A cell as contracts speak of it.
pub enum ValueView {
    Null,
    Int64(i64),
    Float64(u64),
    String(Seq<char>),
    Boolean(bool),
    TimestampMillisecond(i64),
}

impl View for Value {
    type V = ValueView;

    open spec fn view(&self) -> ValueView {
        match self {
            Value::Null => ValueView::Null,
            Value::Int64(i) => ValueView::Int64(*i),
            Value::Float64(bits) => ValueView::Float64(*bits),
            Value::String(s) => ValueView::String(s@),
            Value::Boolean(b) => ValueView::Boolean(*b),
            Value::TimestampMillisecond(i) => ValueView::TimestampMillisecond(*i),
        }
    }
}

impl DeepView for Value {
    type V = ValueView;

    open spec fn deep_view(&self) -> ValueView {
        self@
    }
}

impl PartialEq for Value {
    fn eq(&self, other: &Self) -> (equal: bool) {
        match self {
            Value::Null => match other {
                Value::Null => true,
                _ => false,
            },
            Value::Int64(a) => match other {
                Value::Int64(b) => *a == *b,
                _ => false,
            },
            Value::Float64(a) => match other {
                Value::Float64(b) => *a == *b,
                _ => false,
            },
            Value::String(a) => match other {
                Value::String(b) => *a == *b,
                _ => false,
            },
            Value::Boolean(a) => match other {
                Value::Boolean(b) => *a == *b,
                _ => false,
            },
            Value::TimestampMillisecond(a) => match other {
                Value::TimestampMillisecond(b) => *a == *b,
                _ => false,
            },
        }
    }
}

impl vstd::std_specs::cmp::PartialEqSpecImpl for Value {
    open spec fn obeys_eq_spec() -> bool {
        true
    }

    open spec fn eq_spec(&self, other: &Self) -> bool {
        self@ == other@
    }
}

/// What a value decodes to under a column's data type. A value of another
/// kind decodes to null, and so does every value under a column without a
/// data type.
pub open spec fn decoded(value: DynamicValue, data_type: Option<DataType>) -> ValueView {
    match (data_type, value) {
        (Some(DataType::Int64), DynamicValue::Integer(i)) => ValueView::Int64(i),
        (Some(DataType::Float64), DynamicValue::Float(bits)) => ValueView::Float64(bits),
        (Some(DataType::String), DynamicValue::Text(s)) => ValueView::String(s@),
        (Some(DataType::Boolean), DynamicValue::Boolean(b)) => ValueView::Boolean(b),
        (Some(DataType::TimestampMillisecond), DynamicValue::Integer(i)) =>
            ValueView::TimestampMillisecond(i),
        _ => ValueView::Null,
    }
}

/// A cell that a column of this data type may hold: null, or a value of
/// that type.
pub open spec fn compatible(cell: ValueView, data_type: Option<DataType>) -> bool {
    match cell {
        ValueView::Null => true,
        ValueView::Int64(_) => data_type == Some(DataType::Int64),
        ValueView::Float64(_) => data_type == Some(DataType::Float64),
        ValueView::String(_) => data_type == Some(DataType::String),
        ValueView::Boolean(_) => data_type == Some(DataType::Boolean),
        ValueView::TimestampMillisecond(_) => data_type == Some(DataType::TimestampMillisecond),
    }
}

/// The cell that a record gives a column.
pub open spec fn projected_cell(record: DynamicValue, column: ColumnView) -> ValueView {
    match column_value(record, column.semantic_role, column.name) {
        Some(value) => decoded(value, column.data_type),
        None => ValueView::Null,
    }
}

/// The row that a record gives: one cell for each column, in column order.
pub open spec fn projected_row(record: DynamicValue, columns: Seq<ColumnView>) -> Seq<ValueView> {
    Seq::new(columns.len(), |c: int| projected_cell(record, columns[c]))
}

/// The rows that the records give: one row for each record, in record order.
pub open spec fn projected_rows(records: Seq<DynamicValue>, columns: Seq<ColumnView>) -> Seq<
    Seq<ValueView>,
> {
    Seq::new(records.len(), |r: int| projected_row(records[r], columns))
}

/// `index` is the place of the first malformed record.
pub open spec fn first_malformed(records: Seq<DynamicValue>, index: int) -> bool {
    &&& 0 <= index < records.len()
    &&& malformed_part(records[index]) is Some
    &&& forall|r: int| 0 <= r < index ==> malformed_part(#[trigger] records[r]) is None
}

/// Every row has one cell for each column, and every cell is null or of its
/// column's data type.
pub open spec fn rows_fit(rows: Seq<Seq<ValueView>>, columns: Seq<ColumnView>) -> bool {
    forall|r: int|
        0 <= r < rows.len() ==> (#[trigger] rows[r]).len() == columns.len() && forall|c: int|
            0 <= c < columns.len() ==> compatible(#[trigger] rows[r][c], columns[c].data_type)
}

/// A record that cannot be encoded: what it holds under `tags` or under
/// `fields` is no map.
#[derive(Clone, Copy, Debug, PartialEq, Eq, Structural)]
pub struct RecordDecodingError {
    /// The place of the record among those handed over.
    pub index: usize,
    /// The sub-map that is no map.
    pub part: SubMapping,
}

impl RecordDecodingError {
    /// Says in words what is wrong with the record.
    pub fn message(&self) -> (text: String)
        ensures
            text@ == match self.part {
                SubMapping::Tags => "the value under `tags` is not a map"@,
                SubMapping::Fields => "the value under `fields` is not a map"@,
            },
    {
        match self.part {
            SubMapping::Tags => "the value under `tags` is not a map".to_owned(),
            SubMapping::Fields => "the value under `fields` is not a map".to_owned(),
        }
    }
}

/// The rows of one call, with the columns that they were projected onto.
#[derive(Debug)]
pub struct RowBatch {
    columns: Vec<ColumnSchema>,
    rows: Vec<Vec<Value>>,
}

/// A batch as contracts speak of it.
pub struct RowBatchView {
    pub columns: Seq<ColumnView>,
    pub rows: Seq<Seq<ValueView>>,
}

impl View for RowBatch {
    type V = RowBatchView;

    closed spec fn view(&self) -> RowBatchView {
        RowBatchView { columns: self.columns.deep_view(), rows: self.rows.deep_view() }
    }
}

impl RowBatch {
    #[verifier::type_invariant]
    spec fn fits(&self) -> bool {
        rows_fit(self@.rows, self@.columns)
    }

    /// The number of rows.
    pub fn len(&self) -> (n: usize)
        ensures
            n == self@.rows.len(),
    {
        self.rows.len()
    }

    /// Tells whether the batch has no row.
    pub fn is_empty(&self) -> (empty: bool)
        ensures
            empty == (self@.rows.len() == 0),
    {
        self.rows.len() == 0
    }

    /// The columns that the rows were projected onto.
    pub fn columns(&self) -> (columns: &Vec<ColumnSchema>)
        ensures
            columns.deep_view() == self@.columns,
    {
        &self.columns
    }

    /// The rows, in the order of the records that gave them.
    pub fn rows(&self) -> (rows: &Vec<Vec<Value>>)
        ensures
            rows.deep_view() == self@.rows,
            rows_fit(rows.deep_view(), self@.columns),
    {
        proof {
            use_type_invariant(self);
        }
        &self.rows
    }

    /// Gives the rows up, in the order of the records that gave them.
    pub fn into_rows(self) -> (rows: Vec<Vec<Value>>)
        ensures
            rows.deep_view() == self@.rows,
            rows_fit(rows.deep_view(), self@.columns),
    {
        proof {
            use_type_invariant(&self);
        }
        self.rows
    }
}

/// Projected rows fit the columns that they were projected onto.
pub proof fn lemma_projected_rows_fit(records: Seq<DynamicValue>, columns: Seq<ColumnView>)
    ensures
        projected_rows(records, columns).len() == records.len(),
        rows_fit(projected_rows(records, columns), columns),
{
    let rows = projected_rows(records, columns);
    assert forall|r: int| 0 <= r < rows.len() implies (#[trigger] rows[r]).len() == columns.len()
        && forall|c: int|
        0 <= c < columns.len() ==> compatible(#[trigger] rows[r][c], columns[c].data_type) by {
        assert(rows[r] == projected_row(records[r], columns));
    }
}

/// The value is of the kind that the data type decodes.
pub open spec fn kind_matches(value: DynamicValue, data_type: Option<DataType>) -> bool {
    match data_type {
        Some(DataType::Int64) => value is Integer,
        Some(DataType::Float64) => value is Float,
        Some(DataType::String) => value is Text,
        Some(DataType::Boolean) => value is Boolean,
        Some(DataType::TimestampMillisecond) => value is Integer,
        None => false,
    }
}

/// A cell is null exactly where the record has no value for the column or
/// has one of another kind than the column's data type decodes. No value
/// makes a cell anything else: nothing that a record holds under a key
/// fails its row.
pub proof fn lemma_absent_or_mistyped_is_null(record: DynamicValue, column: ColumnView)
    ensures
        projected_cell(record, column) == ValueView::Null <==> (match column_value(
            record,
            column.semantic_role,
            column.name,
        ) {
            Some(value) => !kind_matches(value, column.data_type),
            None => true,
        }),
        compatible(projected_cell(record, column), column.data_type),
{
}

/// No record gives no row, and nothing is malformed among no records.
pub proof fn lemma_empty_projection(columns: Seq<ColumnView>)
    ensures
        projected_rows(Seq::<DynamicValue>::empty(), columns) == Seq::<Seq<ValueView>>::empty(),
        forall|index: int| !first_malformed(Seq::<DynamicValue>::empty(), index),
{
    assert(projected_rows(Seq::<DynamicValue>::empty(), columns) =~= Seq::<
        Seq<ValueView>,
    >::empty());
}

/// The name is none that a projection onto these columns reads from a
/// record.
pub open spec fn is_unread(name: Seq<char>, columns: Seq<ColumnView>) -> bool {
    &&& name != "tags"@
    &&& name != "fields"@
    &&& name != "timestamp"@
    &&& name != "ts"@
    &&& forall|c: int| 0 <= c < columns.len() ==> (#[trigger] columns[c]).name != name
}

/// A key that the schema does not know changes nothing: a record with one
/// more entry, under a key that is no name that the projection reads, is
/// malformed or not as it was and gives the same row, with one cell for
/// each column and none more.
pub proof fn lemma_unread_key_changes_nothing(
    record: DynamicValue,
    longer: DynamicValue,
    extra: MapEntry,
    at: int,
    columns: Seq<ColumnView>,
)
    requires
        record is Mapping,
        longer is Mapping,
        0 <= at <= entries_of(record).len(),
        entries_of(longer) == entries_of(record).insert(at, extra),
        key_name(extra.key) matches Some(name) ==> is_unread(name, columns),
    ensures
        malformed_part(longer) == malformed_part(record),
        projected_row(longer, columns) == projected_row(record, columns),
        projected_row(longer, columns).len() == columns.len(),
{
    lemma_lookup_insert(record, longer, extra, at, "tags"@);
    lemma_lookup_insert(record, longer, extra, at, "fields"@);
    lemma_lookup_insert(record, longer, extra, at, "timestamp"@);
    lemma_lookup_insert(record, longer, extra, at, "ts"@);
    assert(is_nested(longer) == is_nested(record));
    assert forall|c: int| 0 <= c < columns.len() implies projected_cell(longer, columns[c])
        == projected_cell(record, columns[c]) by {
        lemma_lookup_insert(record, longer, extra, at, columns[c].name);
    }
    assert(projected_row(longer, columns) =~= projected_row(record, columns));
}

/// Decodes one value as a column's data type: an integer for `Int64` and
/// for `TimestampMillisecond`, a float for `Float64`, a text for `String`,
/// a boolean for `Boolean`. A value of another kind gives null.
pub fn term_to_value(value: &DynamicValue, data_type: Option<DataType>) -> (cell: Value)
    ensures
        cell@ == decoded(*value, data_type),
{
    match data_type {
        Some(DataType::Int64) => match value {
            DynamicValue::Integer(i) => Value::Int64(*i),
            _ => Value::Null,
        },
        Some(DataType::Float64) => match value {
            DynamicValue::Float(bits) => Value::Float64(*bits),
            _ => Value::Null,
        },
        Some(DataType::String) => match value {
            DynamicValue::Text(s) => Value::String(s.clone()),
            _ => Value::Null,
        },
        Some(DataType::Boolean) => match value {
            DynamicValue::Boolean(b) => Value::Boolean(*b),
            _ => Value::Null,
        },
        Some(DataType::TimestampMillisecond) => match value {
            DynamicValue::Integer(i) => Value::TimestampMillisecond(*i),
            _ => Value::Null,
        },
        None => Value::Null,
    }
}

/// Projects one record onto the columns, or tells which of its sub-maps is
/// no map.
pub fn project_row(columns: &Vec<ColumnSchema>, record: &DynamicValue) -> (row: Result<
    Vec<Value>,
    SubMapping,
>)
    ensures
        match row {
            Ok(cells) => malformed_part(*record) is None && cells.deep_view() == projected_row(
                *record,
                columns.deep_view(),
            ),
            Err(part) => malformed_part(*record) == Some(part),
        },
{
    let sources = match record_sources(record) {
        Ok(sources) => sources,
        Err(part) => {
            return Err(part);
        },
    };
    let mut cells: Vec<Value> = Vec::with_capacity(columns.len());
    let mut c: usize = 0;
    while c < columns.len()
        invariant
            c <= columns.len(),
            sources.record() == *record,
            cells.len() == c,
            forall|k: int|
                0 <= k < c ==> (#[trigger] cells[k])@ == projected_cell(*record, columns[k]@),
        decreases columns.len() - c,
    {
        let column = &columns[c];
        let cell = match sources.value(column.semantic_role, column.name.as_str()) {
            Some(value) => term_to_value(value, column.data_type),
            None => Value::Null,
        };
        cells.push(cell);
        c += 1;
    }
    assert(cells.deep_view() =~= projected_row(*record, columns.deep_view()));
    Ok(cells)
}

/// Projects the records onto the columns, in record order: `terms_to_rows`
/// for columns that are already at hand.
pub fn project_rows(columns: Vec<ColumnSchema>, records: &Vec<DynamicValue>) -> (batch: Result<
    RowBatch,
    RecordDecodingError,
>)
    ensures
        match batch {
            Ok(batch) => {
                &&& forall|r: int|
                    0 <= r < records.len() ==> malformed_part(#[trigger] records[r]) is None
                &&& batch@.columns == columns.deep_view()
                &&& batch@.rows == projected_rows(records@, columns.deep_view())
                &&& batch@.rows.len() == records.len()
            },
            Err(e) => first_malformed(records@, e.index as int) && malformed_part(
                records[e.index as int],
            ) == Some(e.part),
        },
        records.len() == 0 ==> batch is Ok,
{
    let mut rows: Vec<Vec<Value>> = Vec::with_capacity(records.len());
    let mut r: usize = 0;
    while r < records.len()
        invariant
            r <= records.len(),
            rows.len() == r,
            forall|k: int| 0 <= k < r ==> malformed_part(#[trigger] records[k]) is None,
            forall|k: int|
                0 <= k < r ==> (#[trigger] rows[k]).deep_view() == projected_row(
                    records[k],
                    columns.deep_view(),
                ),
        decreases records.len() - r,
    {
        match project_row(&columns, &records[r]) {
            Ok(cells) => {
                rows.push(cells);
            },
            Err(part) => {
                return Err(RecordDecodingError { index: r, part });
            },
        }
        r += 1;
    }
    proof {
        assert(rows.deep_view() =~= projected_rows(records@, columns.deep_view()));
        lemma_projected_rows_fit(records@, columns.deep_view());
    }
    Ok(RowBatch { columns, rows })
}

/// Reads the columns of a schema, once for a whole call.
pub fn read_columns(table_schema: &TableSchema) -> (columns: Vec<ColumnSchema>)
    ensures
        columns.deep_view() == schema_columns(*table_schema),
{
    let labels = column_labels(table_schema);
    let types = column_types(table_schema);
    let mut columns: Vec<ColumnSchema> = Vec::with_capacity(labels.len());
    let ghost all = schema_columns(*table_schema);
    let mut i: usize = 0;
    while i < labels.len()
        invariant
            i <= labels.len(),
            labels.len() == all.len(),
            types.len() == all.len(),
            forall|k: int|
                0 <= k < labels.len() ==> (#[trigger] labels[k]).0@ == all[k].name && labels[k].1
                    == all[k].semantic_role,
            forall|k: int| 0 <= k < types.len() ==> #[trigger] types[k] == all[k].data_type,
            columns.len() == i,
            forall|k: int| 0 <= k < i ==> (#[trigger] columns[k])@ == all[k],
        decreases labels.len() - i,
    {
        let label = &labels[i];
        columns.push(
            ColumnSchema { name: label.0.clone(), data_type: types[i], semantic_role: label.1 },
        );
        i += 1;
    }
    assert(columns.deep_view() =~= all);
    columns
}

/// Projects the records onto the columns of a schema, in record order.
///
/// The batch is whole or there is none: the first record whose `tags` or
/// `fields` is no map stops the call with its place. Nothing else fails: a
/// record without a key, or with a value of another type, has a null cell
/// there; keys that no column reads are passed over. No record gives no row.
pub fn terms_to_rows(table_schema: &TableSchema, records: &Vec<DynamicValue>) -> (batch: Result<
    RowBatch,
    RecordDecodingError,
>)
    ensures
        match batch {
            Ok(batch) => {
                &&& forall|r: int|
                    0 <= r < records.len() ==> malformed_part(#[trigger] records[r]) is None
                &&& batch@.columns == schema_columns(*table_schema)
                &&& batch@.rows == projected_rows(records@, schema_columns(*table_schema))
                &&& batch@.rows.len() == records.len()
            },
            Err(e) => first_malformed(records@, e.index as int) && malformed_part(
                records[e.index as int],
            ) == Some(e.part),
        },
        records.len() == 0 ==> batch is Ok,
{
    project_rows(read_columns(table_schema), records)
}

} // verus!
