use greptime_row_encoder::infer::terms_to_table_schema;
use greptime_row_encoder::record::{is_mapping, record_sources, SubMapping};
use greptime_row_encoder::rows::{
    project_row, project_rows, read_columns, term_to_value, terms_to_rows, RecordDecodingError,
    Value,
};
use greptime_row_encoder::schema::{ColumnSchema, DataType, SemanticRole};
use greptime_row_encoder::value::{DynamicValue, MapEntry};
use greptimedb_ingester::{ColumnDataType, TableSchema};

fn text(s: &str) -> DynamicValue {
    DynamicValue::Text(s.to_string())
}

fn atom(s: &str) -> DynamicValue {
    DynamicValue::Atom(s.to_string())
}

fn float(x: f64) -> DynamicValue {
    DynamicValue::Float(x.to_bits())
}

fn map(entries: Vec<(DynamicValue, DynamicValue)>) -> DynamicValue {
    DynamicValue::Mapping(entries.into_iter().map(|(key, value)| MapEntry { key, value }).collect())
}

fn string(s: &str) -> Value {
    Value::String(s.to_string())
}

fn float_cell(x: f64) -> Value {
    Value::Float64(x.to_bits())
}

fn column(name: &str, data_type: DataType, semantic_role: SemanticRole) -> ColumnSchema {
    ColumnSchema { name: name.to_string(), data_type: Some(data_type), semantic_role }
}

fn three_columns() -> Vec<ColumnSchema> {
    vec![
        column("ts", DataType::TimestampMillisecond, SemanticRole::Timestamp),
        column("host", DataType::String, SemanticRole::Tag),
        column("cpu", DataType::Float64, SemanticRole::Field),
    ]
}

fn nested(ts: i64, tags: Vec<(DynamicValue, DynamicValue)>, fields: Vec<(DynamicValue, DynamicValue)>) -> DynamicValue {
    map(vec![
        (atom("ts"), DynamicValue::Integer(ts)),
        (atom("tags"), map(tags)),
        (atom("fields"), map(fields)),
    ])
}

#[test]
fn each_data_type_decodes_its_own_kind() {
    assert_eq!(term_to_value(&DynamicValue::Integer(-3), Some(DataType::Int64)), Value::Int64(-3));
    assert_eq!(term_to_value(&float(0.5), Some(DataType::Float64)), float_cell(0.5));
    assert_eq!(term_to_value(&text("a"), Some(DataType::String)), string("a"));
    assert_eq!(
        term_to_value(&DynamicValue::Boolean(true), Some(DataType::Boolean)),
        Value::Boolean(true)
    );
    assert_eq!(
        term_to_value(&DynamicValue::Integer(1000), Some(DataType::TimestampMillisecond)),
        Value::TimestampMillisecond(1000)
    );
}

#[test]
fn a_float_cell_keeps_the_bits_of_the_float() {
    for x in [0.0f64, -0.0, 0.5, 1.5, f64::MAX, f64::MIN_POSITIVE, f64::INFINITY] {
        match term_to_value(&float(x), Some(DataType::Float64)) {
            Value::Float64(bits) => assert_eq!(f64::from_bits(bits).to_bits(), x.to_bits()),
            other => panic!("{other:?}"),
        }
    }
}

#[test]
fn a_value_of_another_kind_decodes_to_null() {
    let values = [
        DynamicValue::Integer(7),
        DynamicValue::BigInteger,
        float(0.5),
        text("a"),
        DynamicValue::Boolean(true),
        atom("ok"),
        map(vec![]),
        DynamicValue::Other,
    ];
    let fits = |value: &DynamicValue, data_type: DataType| match data_type {
        DataType::Int64 | DataType::TimestampMillisecond => {
            matches!(value, DynamicValue::Integer(_))
        }
        DataType::Float64 => matches!(value, DynamicValue::Float(_)),
        DataType::String => matches!(value, DynamicValue::Text(_)),
        DataType::Boolean => matches!(value, DynamicValue::Boolean(_)),
    };
    for value in &values {
        for data_type in [
            DataType::Int64,
            DataType::Float64,
            DataType::String,
            DataType::Boolean,
            DataType::TimestampMillisecond,
        ] {
            let cell = term_to_value(value, Some(data_type));
            assert_eq!(cell == Value::Null, !fits(value, data_type), "{value:?} as {data_type:?}");
        }
        assert_eq!(term_to_value(value, None), Value::Null);
    }
}

#[test]
fn round_trip_of_a_nested_batch() {
    let records = vec![
        nested(1000, vec![(text("host"), text("a"))], vec![(text("cpu"), float(0.5))]),
        nested(2000, vec![], vec![(text("cpu"), float(1.5))]),
    ];
    let schema = terms_to_table_schema("metrics", &records[0]).unwrap();
    let batch = terms_to_rows(&schema, &records).unwrap();
    assert_eq!(batch.columns(), &three_columns());
    assert_eq!(batch.len(), 2);
    assert!(!batch.is_empty());
    assert_eq!(
        batch.rows(),
        &vec![
            vec![Value::TimestampMillisecond(1000), string("a"), float_cell(0.5)],
            vec![Value::TimestampMillisecond(2000), Value::Null, float_cell(1.5)],
        ]
    );
}

#[test]
fn flat_records_are_read_directly() {
    let sample = map(vec![
        (atom("ts"), DynamicValue::Integer(1000)),
        (atom("host"), text("a")),
        (atom("cpu"), float(0.5)),
    ]);
    let later = map(vec![
        (atom("ts"), DynamicValue::Integer(2000)),
        (atom("host"), DynamicValue::Integer(7)),
    ]);
    let schema = terms_to_table_schema("metrics", &sample).unwrap();
    let batch = terms_to_rows(&schema, &vec![sample, later]).unwrap();
    assert_eq!(
        batch.into_rows(),
        vec![
            vec![Value::TimestampMillisecond(1000), string("a"), float_cell(0.5)],
            vec![Value::TimestampMillisecond(2000), Value::Null, Value::Null],
        ]
    );
}

#[test]
fn no_records_give_an_empty_batch_bound_to_the_schema() {
    let sample = nested(1, vec![(text("host"), text("a"))], vec![(text("cpu"), float(0.5))]);
    let schema = terms_to_table_schema("metrics", &sample).unwrap();
    let batch = terms_to_rows(&schema, &vec![]).unwrap();
    assert!(batch.is_empty());
    assert_eq!(batch.len(), 0);
    assert_eq!(batch.columns(), &three_columns());
}

#[test]
fn every_record_gives_one_row_of_one_cell_per_column() {
    let records: Vec<DynamicValue> = vec![
        nested(1, vec![], vec![]),
        map(vec![]),
        DynamicValue::Other,
        map(vec![(text("host"), text("x")), (text("more"), text("y"))]),
        nested(5, vec![(text("host"), text("h")), (text("x"), text("y"))], vec![]),
    ];
    let batch = project_rows(three_columns(), &records).unwrap();
    assert_eq!(batch.len(), records.len());
    for row in batch.rows() {
        assert_eq!(row.len(), 3);
    }
}

#[test]
fn keys_that_no_column_reads_are_passed_over() {
    let plain = nested(1, vec![(text("host"), text("a"))], vec![(text("cpu"), float(0.5))]);
    let noisy = map(vec![
        (text("extra"), text("top")),
        (atom("ts"), DynamicValue::Integer(1)),
        (atom("tags"), map(vec![(text("rack"), text("r1")), (text("host"), text("a"))])),
        (DynamicValue::Integer(4), DynamicValue::Other),
        (atom("fields"), map(vec![(text("cpu"), float(0.5)), (text("mem"), DynamicValue::Integer(9))])),
    ]);
    let columns = three_columns();
    assert_eq!(project_row(&columns, &noisy).unwrap(), project_row(&columns, &plain).unwrap());
    assert_eq!(project_row(&columns, &noisy).unwrap().len(), 3);
}

#[test]
fn the_timestamp_is_read_under_timestamp_before_ts() {
    let columns = three_columns();
    let both = map(vec![
        (text("ts"), DynamicValue::Integer(1)),
        (text("timestamp"), DynamicValue::Integer(2)),
    ]);
    assert_eq!(project_row(&columns, &both).unwrap()[0], Value::TimestampMillisecond(2));
    let atom_first = map(vec![
        (text("timestamp"), DynamicValue::Integer(2)),
        (atom("timestamp"), DynamicValue::Integer(3)),
    ]);
    assert_eq!(project_row(&columns, &atom_first).unwrap()[0], Value::TimestampMillisecond(3));
    let mistyped = map(vec![
        (atom("timestamp"), text("now")),
        (atom("ts"), DynamicValue::Integer(1)),
    ]);
    assert_eq!(project_row(&columns, &mistyped).unwrap()[0], Value::Null);
    assert_eq!(project_row(&columns, &map(vec![])).unwrap()[0], Value::Null);
}

#[test]
fn a_record_with_one_sub_map_only_has_nulls_for_the_other_role() {
    let columns = three_columns();
    let fields_only = map(vec![
        (atom("host"), text("top level")),
        (atom("fields"), map(vec![(text("cpu"), float(2.0))])),
    ]);
    assert_eq!(
        project_row(&columns, &fields_only).unwrap(),
        vec![Value::Null, Value::Null, float_cell(2.0)]
    );
}

#[test]
fn a_sub_map_that_is_no_map_stops_the_batch() {
    let good = nested(1, vec![], vec![]);
    let bad_tags = map(vec![(atom("tags"), DynamicValue::Integer(1))]);
    let bad_fields = map(vec![(atom("tags"), map(vec![])), (text("fields"), text("x"))]);
    let bad_both = map(vec![(atom("tags"), text("x")), (atom("fields"), text("y"))]);

    assert!(matches!(project_row(&three_columns(), &bad_tags), Err(SubMapping::Tags)));
    assert!(matches!(project_row(&three_columns(), &bad_fields), Err(SubMapping::Fields)));
    assert!(matches!(project_row(&three_columns(), &bad_both), Err(SubMapping::Tags)));

    let failed = project_rows(three_columns(), &vec![good, bad_fields, bad_tags]);
    assert_eq!(
        failed.unwrap_err(),
        RecordDecodingError { index: 1, part: SubMapping::Fields }
    );
}

#[test]
fn record_errors_say_what_went_wrong() {
    assert_eq!(
        RecordDecodingError { index: 0, part: SubMapping::Tags }.message(),
        "the value under `tags` is not a map"
    );
    assert_eq!(
        RecordDecodingError { index: 3, part: SubMapping::Fields }.message(),
        "the value under `fields` is not a map"
    );
}

#[test]
fn record_sources_reads_a_record_once() {
    let record = nested(7, vec![(text("host"), text("a"))], vec![(text("cpu"), float(0.5))]);
    let sources = record_sources(&record).unwrap();
    assert!(matches!(
        sources.value(SemanticRole::Tag, "host"),
        Some(DynamicValue::Text(s)) if s == "a"
    ));
    assert!(sources.value(SemanticRole::Field, "host").is_none());
    assert!(matches!(sources.value(SemanticRole::Timestamp, "any"), Some(DynamicValue::Integer(7))));
    assert!(is_mapping(&record));
    assert!(!is_mapping(&DynamicValue::Other));
}

#[test]
fn a_schema_from_elsewhere_is_read_column_by_column() {
    let schema = TableSchema::builder()
        .name("t")
        .build()
        .unwrap()
        .add_tag("host", ColumnDataType::String)
        .add_field("small", ColumnDataType::Int32)
        .add_timestamp("at", ColumnDataType::TimestampMillisecond)
        .add_field("n", ColumnDataType::Int64)
        .add_field("ok", ColumnDataType::Boolean)
        .add_field("x", ColumnDataType::Float64);
    assert_eq!(
        read_columns(&schema),
        vec![
            column("host", DataType::String, SemanticRole::Tag),
            ColumnSchema {
                name: "small".to_string(),
                data_type: None,
                semantic_role: SemanticRole::Field,
            },
            column("at", DataType::TimestampMillisecond, SemanticRole::Timestamp),
            column("n", DataType::Int64, SemanticRole::Field),
            column("ok", DataType::Boolean, SemanticRole::Field),
            column("x", DataType::Float64, SemanticRole::Field),
        ]
    );
    let record = map(vec![
        (atom("ts"), DynamicValue::Integer(5)),
        (atom("host"), text("a")),
        (atom("small"), DynamicValue::Integer(1)),
        (atom("n"), DynamicValue::Integer(2)),
        (atom("ok"), DynamicValue::Boolean(true)),
        (atom("x"), float(0.25)),
    ]);
    let batch = terms_to_rows(&schema, &vec![record]).unwrap();
    assert_eq!(
        batch.rows()[0],
        vec![
            string("a"),
            Value::Null,
            Value::TimestampMillisecond(5),
            Value::Int64(2),
            Value::Boolean(true),
            float_cell(0.25),
        ]
    );
}
