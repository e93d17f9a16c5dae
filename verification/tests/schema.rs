use greptime_row_encoder::infer::{
    add_inferred_columns, flat_role_of, infer_columns, record_is_nested, role_columns,
    terms_to_table_schema, SchemaBuildError,
};
use greptime_row_encoder::schema::{infer_type, ColumnSchema, DataType, SemanticRole};
use greptime_row_encoder::value::{get_term, DynamicValue, MapEntry};
use greptimedb_ingester::{ColumnDataType, SemanticType, TableSchema};

fn text(s: &str) -> DynamicValue {
    DynamicValue::Text(s.to_string())
}

fn atom(s: &str) -> DynamicValue {
    DynamicValue::Atom(s.to_string())
}

fn float(x: f64) -> DynamicValue {
    DynamicValue::Float(x.to_bits())
}

fn map(entries: Vec<(DynamicValue, DynamicValue)>) -> DynamicValue {
    DynamicValue::Mapping(entries.into_iter().map(|(key, value)| MapEntry { key, value }).collect())
}

fn column(name: &str, data_type: DataType, semantic_role: SemanticRole) -> ColumnSchema {
    ColumnSchema { name: name.to_string(), data_type: Some(data_type), semantic_role }
}

fn nested_sample() -> DynamicValue {
    map(vec![
        (atom("ts"), DynamicValue::Integer(1000)),
        (atom("tags"), map(vec![(text("host"), text("a"))])),
        (atom("fields"), map(vec![(text("cpu"), float(0.5))])),
    ])
}

fn flat_sample() -> DynamicValue {
    map(vec![
        (atom("ts"), DynamicValue::Integer(1000)),
        (atom("host"), text("a")),
        (atom("cpu"), float(0.5)),
    ])
}

fn sink_columns(schema: &TableSchema) -> Vec<(String, ColumnDataType, SemanticType)> {
    schema.columns().iter().map(|c| (c.name.clone(), c.data_type, c.semantic_type)).collect()
}

#[test]
fn infer_type_follows_the_kind_of_the_value() {
    assert_eq!(infer_type(&DynamicValue::Integer(7)), DataType::Int64);
    assert_eq!(infer_type(&DynamicValue::BigInteger), DataType::Int64);
    assert_eq!(infer_type(&float(0.5)), DataType::Float64);
    assert_eq!(infer_type(&text("a")), DataType::String);
    assert_eq!(infer_type(&DynamicValue::Boolean(true)), DataType::Boolean);
    assert_eq!(infer_type(&atom("ok")), DataType::String);
    assert_eq!(infer_type(&map(vec![])), DataType::String);
    assert_eq!(infer_type(&DynamicValue::Other), DataType::String);
}

#[test]
fn flat_role_is_tag_for_strings_and_field_for_the_rest() {
    assert_eq!(flat_role_of(&text("a")), SemanticRole::Tag);
    assert_eq!(flat_role_of(&atom("ok")), SemanticRole::Tag);
    assert_eq!(flat_role_of(&DynamicValue::Other), SemanticRole::Tag);
    assert_eq!(flat_role_of(&DynamicValue::Integer(1)), SemanticRole::Field);
    assert_eq!(flat_role_of(&float(1.5)), SemanticRole::Field);
    assert_eq!(flat_role_of(&DynamicValue::Boolean(false)), SemanticRole::Field);
}

#[test]
fn get_term_probes_the_atom_key_before_the_text_key() {
    let record = map(vec![
        (text("host"), text("from text")),
        (atom("host"), text("from atom")),
        (text("only"), DynamicValue::Integer(1)),
    ]);
    assert!(matches!(get_term(&record, "host"), Some(DynamicValue::Text(s)) if s == "from atom"));
    assert!(matches!(get_term(&record, "only"), Some(DynamicValue::Integer(1))));
    assert!(get_term(&record, "absent").is_none());
    assert!(get_term(&DynamicValue::Integer(3), "host").is_none());
}

#[test]
fn get_term_takes_the_first_of_two_equal_keys() {
    let record = map(vec![
        (text("k"), DynamicValue::Integer(1)),
        (text("k"), DynamicValue::Integer(2)),
    ]);
    assert!(matches!(get_term(&record, "k"), Some(DynamicValue::Integer(1))));
}

#[test]
fn a_record_is_nested_when_it_carries_tags_or_fields() {
    assert!(record_is_nested(&nested_sample()));
    assert!(!record_is_nested(&flat_sample()));
    assert!(record_is_nested(&map(vec![(text("fields"), DynamicValue::Integer(1))])));
    assert!(!record_is_nested(&DynamicValue::Other));
}

#[test]
fn nested_sample_infers_timestamp_tag_and_field() {
    let columns = infer_columns(&nested_sample());
    assert_eq!(
        columns,
        vec![
            column("ts", DataType::TimestampMillisecond, SemanticRole::Timestamp),
            column("host", DataType::String, SemanticRole::Tag),
            column("cpu", DataType::Float64, SemanticRole::Field),
        ]
    );
}

#[test]
fn flat_sample_infers_the_same_three_columns() {
    assert_eq!(infer_columns(&flat_sample()), infer_columns(&nested_sample()));
}

#[test]
fn inference_run_twice_gives_the_same_columns() {
    let sample = map(vec![
        (atom("timestamp"), DynamicValue::Integer(5)),
        (atom("tags"), map(vec![(text("b"), text("x")), (text("a"), atom("y"))])),
        (atom("fields"), map(vec![(text("n"), DynamicValue::Integer(1))])),
    ]);
    assert_eq!(infer_columns(&sample), infer_columns(&sample));
}

#[test]
fn columns_of_a_role_come_in_ascending_name_order() {
    let sample = map(vec![
        (
            atom("tags"),
            map(vec![
                (text("region"), text("eu")),
                (text("host"), text("a")),
                (text("Zone"), text("z")),
                (text("az"), text("1")),
            ]),
        ),
        (
            atom("fields"),
            map(vec![
                (text("mem"), DynamicValue::Integer(1)),
                (text("cpu"), float(0.5)),
                (text("up"), DynamicValue::Boolean(true)),
            ]),
        ),
    ]);
    let names: Vec<String> = infer_columns(&sample).into_iter().map(|c| c.name).collect();
    assert_eq!(names, vec!["ts", "Zone", "az", "host", "region", "cpu", "mem", "up"]);
    let types: Vec<Option<DataType>> =
        role_columns(&sample, SemanticRole::Field).into_iter().map(|c| c.data_type).collect();
    assert_eq!(
        types,
        vec![Some(DataType::Float64), Some(DataType::Int64), Some(DataType::Boolean)]
    );
}

#[test]
fn the_order_of_the_entries_does_not_change_the_schema() {
    let one = map(vec![
        (atom("tags"), map(vec![(text("a"), text("1")), (text("b"), text("2"))])),
        (atom("ts"), DynamicValue::Integer(1)),
    ]);
    let other = map(vec![
        (atom("ts"), DynamicValue::Integer(1)),
        (atom("tags"), map(vec![(text("b"), text("2")), (text("a"), text("1"))])),
    ]);
    assert_eq!(infer_columns(&one), infer_columns(&other));
}

#[test]
fn no_name_is_used_twice() {
    let sample = map(vec![
        (
            atom("tags"),
            map(vec![(text("host"), text("a")), (text("host"), DynamicValue::Integer(1))]),
        ),
        (
            atom("fields"),
            map(vec![
                (text("host"), DynamicValue::Integer(2)),
                (text("ts"), DynamicValue::Integer(3)),
                (text("cpu"), float(1.0)),
            ]),
        ),
    ]);
    assert_eq!(
        infer_columns(&sample),
        vec![
            column("ts", DataType::TimestampMillisecond, SemanticRole::Timestamp),
            column("host", DataType::String, SemanticRole::Tag),
            column("cpu", DataType::Float64, SemanticRole::Field),
        ]
    );
}

#[test]
fn a_flat_sample_keeps_its_timestamp_keys_out_of_the_columns() {
    let sample = map(vec![
        (text("timestamp"), DynamicValue::Integer(1)),
        (text("ts"), DynamicValue::Integer(2)),
        (text("n"), DynamicValue::Integer(3)),
        (DynamicValue::Integer(9), text("no name")),
    ]);
    assert_eq!(
        infer_columns(&sample),
        vec![
            column("ts", DataType::TimestampMillisecond, SemanticRole::Timestamp),
            column("n", DataType::Int64, SemanticRole::Field),
        ]
    );
}

#[test]
fn a_sub_map_that_is_no_map_gives_no_columns() {
    let sample = map(vec![
        (atom("tags"), DynamicValue::Integer(1)),
        (atom("fields"), map(vec![(text("cpu"), float(0.5))])),
    ]);
    assert_eq!(
        infer_columns(&sample),
        vec![
            column("ts", DataType::TimestampMillisecond, SemanticRole::Timestamp),
            column("cpu", DataType::Float64, SemanticRole::Field),
        ]
    );
    assert_eq!(infer_columns(&DynamicValue::Other).len(), 1);
}

#[test]
fn the_schema_holds_the_table_name_and_the_inferred_columns() {
    let schema = terms_to_table_schema("metrics", &nested_sample()).unwrap();
    assert_eq!(schema.name(), "metrics");
    assert_eq!(
        sink_columns(&schema),
        vec![
            ("ts".to_string(), ColumnDataType::TimestampMillisecond, SemanticType::Timestamp),
            ("host".to_string(), ColumnDataType::String, SemanticType::Tag),
            ("cpu".to_string(), ColumnDataType::Float64, SemanticType::Field),
        ]
    );
}

#[test]
fn every_data_type_reaches_the_schema_as_itself() {
    let sample = map(vec![
        (atom("tags"), map(vec![(text("t_bool"), DynamicValue::Boolean(true))])),
        (
            atom("fields"),
            map(vec![
                (text("f_int"), DynamicValue::Integer(1)),
                (text("f_float"), float(1.0)),
                (text("f_text"), text("x")),
                (text("f_bool"), DynamicValue::Boolean(false)),
            ]),
        ),
    ]);
    let schema = terms_to_table_schema("t", &sample).unwrap();
    assert_eq!(
        sink_columns(&schema),
        vec![
            ("ts".to_string(), ColumnDataType::TimestampMillisecond, SemanticType::Timestamp),
            ("t_bool".to_string(), ColumnDataType::Boolean, SemanticType::Tag),
            ("f_bool".to_string(), ColumnDataType::Boolean, SemanticType::Field),
            ("f_float".to_string(), ColumnDataType::Float64, SemanticType::Field),
            ("f_int".to_string(), ColumnDataType::Int64, SemanticType::Field),
            ("f_text".to_string(), ColumnDataType::String, SemanticType::Field),
        ]
    );
}

#[test]
fn an_empty_table_name_gives_no_schema() {
    let failed = terms_to_table_schema("", &nested_sample());
    assert!(matches!(failed, Err(SchemaBuildError::EmptyTableName)));
}

#[test]
fn schema_errors_say_what_went_wrong() {
    assert_eq!(SchemaBuildError::EmptyTableName.message(), "the table name is empty");
    assert_eq!(
        SchemaBuildError::Rejected.message(),
        "the schema builder rejected the table name"
    );
}

#[test]
fn inferred_columns_are_appended_to_what_a_schema_has() {
    let template = TableSchema::builder()
        .name("t")
        .build()
        .unwrap()
        .add_field("first", ColumnDataType::Int32);
    let schema = add_inferred_columns(template, &flat_sample());
    assert_eq!(schema.name(), "t");
    assert_eq!(
        sink_columns(&schema),
        vec![
            ("first".to_string(), ColumnDataType::Int32, SemanticType::Field),
            ("ts".to_string(), ColumnDataType::TimestampMillisecond, SemanticType::Timestamp),
            ("host".to_string(), ColumnDataType::String, SemanticType::Tag),
            ("cpu".to_string(), ColumnDataType::Float64, SemanticType::Field),
        ]
    );
}
