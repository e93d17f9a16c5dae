//! Schema inference from one sample record.
//!
//! The schema has the timestamp column `ts` first, then the tag columns, then
//! the field columns, each group in ascending name order. A nested sample
//! gives one tag column for each name under `tags` and one field column for
//! each name under `fields`. A flat sample gives one column for each of its
//! names but `timestamp` and `ts`: a tag where the value infers `String`, a
//! field otherwise. No name is used twice: `ts` belongs to the timestamp, and
//! a name that is a tag is no field.

use vstd::prelude::*;
use greptimedb_ingester::TableSchema;
use crate::names::{
    lemma_ascending_unique, lemma_name_lt_asymmetric, lemma_name_lt_transitive, name_lt,
    name_order, names_ascending, NameOrder,
};
use crate::record::{column_value, is_nested, role_source};
use crate::schema::{infer_type, inferred_type, ColumnSchema, ColumnView, DataType, SemanticRole};
use crate::sink::{
    add_field, add_tag, add_timestamp, build_schema, builder_accepts, schema_columns, schema_name,
};
use crate::value::{entries_of, get_term, key_name, lemma_lookup_has_key, same_name, DynamicValue};

verus! {

/// The role that a flat sample gives a column: a tag where the value infers
/// `String`, a field otherwise.
pub open spec fn flat_role(value: DynamicValue) -> SemanticRole {
    if inferred_type(value) == DataType::String {
        SemanticRole::Tag
    } else {
        SemanticRole::Field
    }
}

/// The sample makes `name` a column of `role`.
pub open spec fn makes_column(sample: DynamicValue, role: SemanticRole, name: Seq<char>) -> bool {
    &&& role != SemanticRole::Timestamp
    &&& name != "ts"@
    &&& column_value(sample, role, name) matches Some(value)
    &&& if is_nested(sample) {
        role == SemanticRole::Field ==> column_value(sample, SemanticRole::Tag, name) is None
    } else {
        name != "timestamp"@ && flat_role(value) == role
    }
}

/// The column that the sample makes of `name` under `role`, if any.
pub open spec fn column_of(sample: DynamicValue, role: SemanticRole, name: Seq<char>) -> Option<
    ColumnView,
> {
    if makes_column(sample, role, name) {
        Some(
            ColumnView {
                name,
                data_type: Some(inferred_type(column_value(sample, role, name).unwrap())),
                semantic_role: role,
            },
        )
    } else {
        None
    }
}

/// The names of the columns, in column order.
pub open spec fn column_names(columns: Seq<ColumnView>) -> Seq<Seq<char>> {
    Seq::new(columns.len(), |i: int| columns[i].name)
}

/// The columns are those that the sample makes under `role`: each of them
/// once, in ascending name order.
pub open spec fn is_role_columns(
    sample: DynamicValue,
    role: SemanticRole,
    columns: Seq<ColumnView>,
) -> bool {
    &&& names_ascending(column_names(columns))
    &&& forall|i: int|
        0 <= i < columns.len() ==> column_of(sample, role, (#[trigger] columns[i]).name) == Some(
            columns[i],
        )
    &&& forall|name: Seq<char>| #[trigger]
        makes_column(sample, role, name) ==> column_names(columns).contains(name)
}

/// The timestamp column of every inferred schema.
pub open spec fn timestamp_column() -> ColumnView {
    ColumnView {
        name: "ts"@,
        data_type: Some(DataType::TimestampMillisecond),
        semantic_role: SemanticRole::Timestamp,
    }
}

/// The columns are those of the schema that the sample infers: the timestamp
/// column, then `tags` tag columns, then the field columns.
pub open spec fn is_inferred_split(sample: DynamicValue, columns: Seq<ColumnView>, tags: int) -> bool {
    &&& 0 <= tags < columns.len()
    &&& columns[0] == timestamp_column()
    &&& is_role_columns(sample, SemanticRole::Tag, columns.subrange(1, 1 + tags))
    &&& is_role_columns(
        sample,
        SemanticRole::Field,
        columns.subrange(1 + tags, columns.len() as int),
    )
}

/// The columns are those of the schema that the sample infers.
pub open spec fn is_inferred_columns(sample: DynamicValue, columns: Seq<ColumnView>) -> bool {
    exists|tags: int| is_inferred_split(sample, columns, tags)
}

/// A sample infers one sequence of columns per role and no other.
pub proof fn lemma_role_columns_unique(
    sample: DynamicValue,
    role: SemanticRole,
    a: Seq<ColumnView>,
    b: Seq<ColumnView>,
)
    requires
        is_role_columns(sample, role, a),
        is_role_columns(sample, role, b),
    ensures
        a == b,
{
    let x = column_names(a);
    let y = column_names(b);
    assert forall|n: Seq<char>| x.contains(n) <==> y.contains(n) by {
        if x.contains(n) {
            let i = choose|i: int| 0 <= i < x.len() && x[i] == n;
            assert(column_of(sample, role, a[i].name) == Some(a[i]));
            assert(makes_column(sample, role, n));
        }
        if y.contains(n) {
            let i = choose|i: int| 0 <= i < y.len() && y[i] == n;
            assert(column_of(sample, role, b[i].name) == Some(b[i]));
            assert(makes_column(sample, role, n));
        }
    }
    lemma_ascending_unique(x, y);
    assert(a.len() == b.len());
    assert forall|i: int| 0 <= i < a.len() implies a[i] == b[i] by {
        assert(x[i] == y[i]);
        assert(column_of(sample, role, a[i].name) == Some(a[i]));
        assert(column_of(sample, role, b[i].name) == Some(b[i]));
    }
    assert(a =~= b);
}

/// Inference is a function of the sample: a sample infers one sequence of
/// columns, in one order and with one data type each, and no other.
pub proof fn lemma_inferred_columns_unique(
    sample: DynamicValue,
    a: Seq<ColumnView>,
    b: Seq<ColumnView>,
)
    requires
        is_inferred_columns(sample, a),
        is_inferred_columns(sample, b),
    ensures
        a == b,
{
    let s = choose|s: int| is_inferred_split(sample, a, s);
    let t = choose|t: int| is_inferred_split(sample, b, t);
    lemma_role_columns_unique(sample, SemanticRole::Tag, a.subrange(1, 1 + s), b.subrange(1, 1 + t));
    assert(s == t) by {
        assert(a.subrange(1, 1 + s).len() == s);
        assert(b.subrange(1, 1 + t).len() == t);
    }
    lemma_role_columns_unique(
        sample,
        SemanticRole::Field,
        a.subrange(1 + s, a.len() as int),
        b.subrange(1 + t, b.len() as int),
    );
    assert(a.len() == b.len()) by {
        assert(a.subrange(1 + s, a.len() as int).len() == a.len() - 1 - s);
        assert(b.subrange(1 + t, b.len() as int).len() == b.len() - 1 - t);
    }
    assert forall|i: int| 0 <= i < a.len() implies a[i] == b[i] by {
        if 1 <= i < 1 + s {
            assert(a.subrange(1, 1 + s)[i - 1] == a[i]);
            assert(b.subrange(1, 1 + t)[i - 1] == b[i]);
        } else if i >= 1 + s {
            assert(a.subrange(1 + s, a.len() as int)[i - 1 - s] == a[i]);
            assert(b.subrange(1 + t, b.len() as int)[i - 1 - t] == b[i]);
        }
    }
    assert(a =~= b);
}

/// The place of a role in column order.
pub open spec fn role_rank(role: SemanticRole) -> int {
    match role {
        SemanticRole::Timestamp => 0,
        SemanticRole::Tag => 1,
        SemanticRole::Field => 2,
    }
}

/// The order of an inferred schema: one timestamp column, which comes
/// first, then the tags, then the fields; within the tags and within the
/// fields the names ascend; and no name occurs twice.
pub proof fn lemma_inferred_columns_ordered(sample: DynamicValue, columns: Seq<ColumnView>)
    requires
        is_inferred_columns(sample, columns),
    ensures
        columns.len() >= 1,
        columns[0] == timestamp_column(),
        forall|i: int|
            1 <= i < columns.len() ==> (#[trigger] columns[i]).semantic_role
                != SemanticRole::Timestamp,
        forall|i: int, j: int|
            0 <= i < j < columns.len() ==> role_rank((#[trigger] columns[i]).semantic_role)
                <= role_rank((#[trigger] columns[j]).semantic_role),
        forall|i: int, j: int|
            0 <= i < j < columns.len() && (#[trigger] columns[i]).semantic_role
                == (#[trigger] columns[j]).semantic_role ==> name_lt(columns[i].name, columns[j].name),
        forall|i: int, j: int|
            0 <= i < j < columns.len() ==> (#[trigger] columns[i]).name != (
            #[trigger] columns[j]).name,
{
    let t = choose|t: int| is_inferred_split(sample, columns, t);
    let tags = columns.subrange(1, 1 + t);
    let fields = columns.subrange(1 + t, columns.len() as int);
    assert forall|i: int| 1 <= i < columns.len() implies role_rank(
        (#[trigger] columns[i]).semantic_role,
    ) == (if i < 1 + t {
        1int
    } else {
        2int
    }) && makes_column(sample, columns[i].semantic_role, columns[i].name) by {
        if i < 1 + t {
            assert(tags[i - 1] == columns[i]);
            assert(column_of(sample, SemanticRole::Tag, tags[i - 1].name) == Some(tags[i - 1]));
        } else {
            assert(fields[i - 1 - t] == columns[i]);
            assert(column_of(sample, SemanticRole::Field, fields[i - 1 - t].name) == Some(
                fields[i - 1 - t],
            ));
        }
    }
    assert forall|i: int, j: int|
        0 <= i < j < columns.len() && (#[trigger] columns[i]).semantic_role
            == (#[trigger] columns[j]).semantic_role implies name_lt(
        columns[i].name,
        columns[j].name,
    ) by {
        if j < 1 + t {
            assert(tags[i - 1] == columns[i]);
            assert(tags[j - 1] == columns[j]);
            assert(name_lt(column_names(tags)[i - 1], column_names(tags)[j - 1]));
        } else {
            assert(fields[i - 1 - t] == columns[i]);
            assert(fields[j - 1 - t] == columns[j]);
            assert(name_lt(column_names(fields)[i - 1 - t], column_names(fields)[j - 1 - t]));
        }
    }
    assert forall|i: int, j: int| 0 <= i < j < columns.len() implies (#[trigger] columns[i]).name
        != (#[trigger] columns[j]).name by {
        if i == 0 {
        } else if columns[i].semantic_role == columns[j].semantic_role {
            lemma_name_lt_asymmetric(columns[i].name, columns[j].name);
        } else {
            assert(makes_column(sample, SemanticRole::Tag, columns[i].name));
            assert(makes_column(sample, SemanticRole::Field, columns[j].name));
        }
    }
}

/// Tells whether a record carries a `tags` or a `fields` entry.
pub fn record_is_nested(record: &DynamicValue) -> (nested: bool)
    ensures
        nested == is_nested(*record),
{
    get_term(record, "tags").is_some() || get_term(record, "fields").is_some()
}

/// Reads what a record holds for the column `name` of a tag or field role.
fn role_value<'a>(record: &'a DynamicValue, role: SemanticRole, name: &str) -> (found: Option<
    &'a DynamicValue,
>)
    requires
        role != SemanticRole::Timestamp,
    ensures
        match found {
            Some(v) => column_value(*record, role, name@) == Some(*v),
            None => column_value(*record, role, name@) is None,
        },
{
    let source = if record_is_nested(record) {
        match role {
            SemanticRole::Tag => get_term(record, "tags"),
            _ => get_term(record, "fields"),
        }
    } else {
        Some(record)
    };
    match source {
        Some(map) => get_term(map, name),
        None => None,
    }
}

/// Tells the role that a flat sample gives a column with this value.
pub fn flat_role_of(value: &DynamicValue) -> (role: SemanticRole)
    ensures
        role == flat_role(*value),
{
    match infer_type(value) {
        DataType::String => SemanticRole::Tag,
        _ => SemanticRole::Field,
    }
}

/// Makes the column that the sample has for `name` under `role`, if any.
fn column_for(sample: &DynamicValue, role: SemanticRole, name: &str) -> (column: Option<
    ColumnSchema,
>)
    ensures
        match column {
            Some(c) => column_of(*sample, role, name@) == Some(c@),
            None => column_of(*sample, role, name@) is None,
        },
{
    if role == SemanticRole::Timestamp || same_name(name, "ts") {
        return None;
    }
    match role_value(sample, role, name) {
        None => None,
        Some(value) => {
            let takes = if record_is_nested(sample) {
                match role {
                    SemanticRole::Field => role_value(sample, SemanticRole::Tag, name).is_none(),
                    _ => true,
                }
            } else {
                !same_name(name, "timestamp") && flat_role_of(value) == role
            };
            if takes {
                Some(
                    ColumnSchema {
                        name: name.to_owned(),
                        data_type: Some(infer_type(value)),
                        semantic_role: role,
                    },
                )
            } else {
                None
            }
        },
    }
}

/// Puts a column at its place among columns in ascending name order, unless
/// its name is there already.
fn insert_column(columns: &mut Vec<ColumnSchema>, column: ColumnSchema)
    requires
        names_ascending(column_names(old(columns).deep_view())),
    ensures
        names_ascending(column_names(final(columns).deep_view())),
        forall|c: ColumnView|
            final(columns).deep_view().contains(c) <==> (old(columns).deep_view().contains(c) || (c
                == column@ && !column_names(old(columns).deep_view()).contains(column@.name))),
        column_names(final(columns).deep_view()).contains(column@.name),
{
    let ghost before = columns.deep_view();
    let ghost new = column@;
    let mut i: usize = 0;
    while i < columns.len()
        invariant
            i <= columns.len(),
            columns.deep_view() == before,
            before == old(columns).deep_view(),
            new == column@,
            names_ascending(column_names(before)),
            forall|k: int| 0 <= k < i ==> name_lt(#[trigger] before[k].name, new.name),
        decreases columns.len() - i,
    {
        match name_order(columns[i].name.as_str(), column.name.as_str()) {
            NameOrder::Before => {},
            NameOrder::Same => {
                proof {
                    assert(column_names(before)[i as int] == new.name);
                    assert(column_names(before).contains(new.name));
                }
                return;
            },
            NameOrder::After => {
                columns.insert(i, column);
                proof {
                    let after = before.insert(i as int, new);
                    assert(columns.deep_view() =~= after);
                    lemma_inserted(before, new, i as int);
                    assert forall|c: ColumnView|
                        columns.deep_view().contains(c) <==> (before.contains(c) || c == new) by {
                        assert(after.contains(c) <==> (before.contains(c) || c == new));
                    }
                }
                return;
            },
        }
        i += 1;
    }
    columns.push(column);
    proof {
        let after = before.insert(before.len() as int, new);
        assert(columns.deep_view() =~= after);
        lemma_inserted(before, new, before.len() as int);
        assert forall|c: ColumnView|
            columns.deep_view().contains(c) <==> (before.contains(c) || c == new) by {
            assert(after.contains(c) <==> (before.contains(c) || c == new));
        }
    }
}

/// What a sequence of columns holds after one more has been put at its
/// place.
proof fn lemma_inserted(before: Seq<ColumnView>, new: ColumnView, at: int)
    requires
        0 <= at <= before.len(),
        names_ascending(column_names(before)),
        forall|k: int| 0 <= k < at ==> name_lt(#[trigger] before[k].name, new.name),
        at < before.len() ==> name_lt(new.name, before[at].name),
    ensures
        names_ascending(column_names(before.insert(at, new))),
        !column_names(before).contains(new.name),
        column_names(before.insert(at, new)).contains(new.name),
        forall|c: ColumnView|
            #[trigger] before.insert(at, new).contains(c) <==> (before.contains(c) || c == new),
{
    let after = before.insert(at, new);
    let names = column_names(before);
    assert forall|k: int| at <= k < before.len() implies name_lt(
        new.name,
        #[trigger] before[k].name,
    ) by {
        if k > at {
            assert(name_lt(names[at], names[k]));
            lemma_name_lt_transitive(new.name, before[at].name, before[k].name);
        }
    }
    assert forall|i: int, j: int| 0 <= i < j < after.len() implies name_lt(
        #[trigger] column_names(after)[i],
        #[trigger] column_names(after)[j],
    ) by {
        let oi = if i < at {
            i
        } else {
            i - 1
        };
        let oj = if j < at {
            j
        } else {
            j - 1
        };
        if i != at && j != at {
            assert(name_lt(names[oi], names[oj]));
        } else if i == at {
            assert(name_lt(new.name, before[oj].name));
        } else {
            assert(name_lt(before[oi].name, new.name));
        }
    }
    if names.contains(new.name) {
        let k = choose|k: int| 0 <= k < names.len() && names[k] == new.name;
        if k < at {
            lemma_name_lt_asymmetric(before[k].name, new.name);
        } else {
            lemma_name_lt_asymmetric(new.name, before[k].name);
        }
    }
    assert(column_names(after)[at] == new.name);
    assert forall|c: ColumnView| after.contains(c) <==> (before.contains(c) || c == new) by {
        if after.contains(c) {
            let k = choose|k: int| 0 <= k < after.len() && after[k] == c;
            if k < at {
                assert(before[k] == c);
            } else if k > at {
                assert(before[k - 1] == c);
            }
        }
        if before.contains(c) {
            let k = choose|k: int| 0 <= k < before.len() && before[k] == c;
            if k < at {
                assert(after[k] == c);
            } else {
                assert(after[k + 1] == c);
            }
        }
        if c == new {
            assert(after[at] == c);
        }
    }
}

/// The columns that a sample makes under one role, in ascending name order.
pub fn role_columns(sample: &DynamicValue, role: SemanticRole) -> (columns: Vec<ColumnSchema>)
    ensures
        is_role_columns(*sample, role, columns.deep_view()),
{
    let mut columns: Vec<ColumnSchema> = Vec::new();
    let source = match role {
        SemanticRole::Timestamp => None,
        SemanticRole::Tag => if record_is_nested(sample) {
            get_term(sample, "tags")
        } else {
            Some(sample)
        },
        SemanticRole::Field => if record_is_nested(sample) {
            get_term(sample, "fields")
        } else {
            Some(sample)
        },
    };
    assert(names_ascending(column_names(columns.deep_view())));
    if let Some(DynamicValue::Mapping(entries)) = source {
        let mut i: usize = 0;
        while i < entries.len()
            invariant
                i <= entries.len(),
                names_ascending(column_names(columns.deep_view())),
                forall|k: int|
                    0 <= k < columns.len() ==> column_of(
                        *sample,
                        role,
                        (#[trigger] columns.deep_view()[k]).name,
                    ) == Some(columns.deep_view()[k]),
                forall|j: int, name: Seq<char>|
                    0 <= j < i && key_name(#[trigger] entries[j].key) == Some(name)
                        && #[trigger] makes_column(*sample, role, name) ==> column_names(
                        columns.deep_view(),
                    ).contains(name),
            decreases entries.len() - i,
        {
            let name = match &entries[i].key {
                DynamicValue::Atom(s) => Some(s.as_str()),
                DynamicValue::Text(s) => Some(s.as_str()),
                _ => None,
            };
            if let Some(name) = name {
                if let Some(column) = column_for(sample, role, name) {
                    let ghost before = columns.deep_view();
                    insert_column(&mut columns, column);
                    proof {
                        let after = columns.deep_view();
                        assert forall|k: int| 0 <= k < after.len() implies column_of(
                            *sample,
                            role,
                            (#[trigger] after[k]).name,
                        ) == Some(after[k]) by {
                            assert(after.contains(after[k]));
                            if before.contains(after[k]) {
                                let m = choose|m: int|
                                    0 <= m < before.len() && before[m] == after[k];
                            }
                        }
                        assert forall|n: Seq<char>|
                            column_names(before).contains(n) implies column_names(after).contains(
                            n,
                        ) by {
                            let m = choose|m: int|
                                0 <= m < before.len() && column_names(before)[m] == n;
                            assert(before.contains(before[m]));
                            assert(after.contains(before[m]));
                            let p = choose|p: int| 0 <= p < after.len() && after[p] == before[m];
                            assert(column_names(after)[p] == n);
                        }
                    }
                }
            }
            i += 1;
        }
    }
    proof {
        let cols = columns.deep_view();
        assert forall|name: Seq<char>| #[trigger]
            makes_column(*sample, role, name) implies column_names(cols).contains(name) by {
            let map = role_source(*sample, role).unwrap();
            lemma_lookup_has_key(map, name);
            let j = choose|j: int|
                0 <= j < entries_of(map).len() && key_name(#[trigger] entries_of(map)[j].key)
                    == Some(name);
        }
    }
    columns
}

/// Infers the columns of a schema from one sample record: `ts` with the
/// data type `TimestampMillisecond`, then the tags, then the fields, each
/// group in ascending name order, each column with the data type that its
/// sample value infers.
pub fn infer_columns(sample: &DynamicValue) -> (columns: Vec<ColumnSchema>)
    ensures
        is_inferred_columns(*sample, columns.deep_view()),
{
    let mut columns: Vec<ColumnSchema> = Vec::new();
    columns.push(
        ColumnSchema {
            name: "ts".to_owned(),
            data_type: Some(DataType::TimestampMillisecond),
            semantic_role: SemanticRole::Timestamp,
        },
    );
    let mut tags = role_columns(sample, SemanticRole::Tag);
    let mut fields = role_columns(sample, SemanticRole::Field);
    let ghost tag_views = tags.deep_view();
    let ghost field_views = fields.deep_view();
    columns.append(&mut tags);
    columns.append(&mut fields);
    proof {
        let all = columns.deep_view();
        let t = tag_views.len() as int;
        assert(all.subrange(1, 1 + t) =~= tag_views);
        assert(all.subrange(1 + t, all.len() as int) =~= field_views);
        assert(is_inferred_split(*sample, all, t));
    }
    columns
}

/// Why no schema could be built.
#[derive(Clone, Copy, Debug, PartialEq, Eq, Structural)]
pub enum SchemaBuildError {
    /// The table name is empty.
    EmptyTableName,
    /// The schema builder does not take the table name.
    Rejected,
}

impl SchemaBuildError {
    /// Says in words why no schema could be built.
    pub fn message(&self) -> (text: String)
        ensures
            text@ == match self {
                SchemaBuildError::EmptyTableName => "the table name is empty"@,
                SchemaBuildError::Rejected => "the schema builder rejected the table name"@,
            },
    {
        match self {
            SchemaBuildError::EmptyTableName => "the table name is empty".to_owned(),
            SchemaBuildError::Rejected => "the schema builder rejected the table name".to_owned(),
        }
    }
}

/// Appends to a schema the columns that a sample record infers, and leaves
/// its name and the columns that it has as they are.
pub fn add_inferred_columns(template: TableSchema, first_row: &DynamicValue) -> (schema:
    TableSchema)
    ensures
        schema_name(schema) == schema_name(template),
        schema_columns(schema).len() > schema_columns(template).len(),
        schema_columns(schema).take(schema_columns(template).len() as int) == schema_columns(
            template,
        ),
        is_inferred_columns(
            *first_row,
            schema_columns(schema).skip(schema_columns(template).len() as int),
        ),
{
    let columns = infer_columns(first_row);
    let ghost views = columns.deep_view();
    let ghost start = schema_columns(template);
    proof {
        let t = choose|t: int| is_inferred_split(*first_row, views, t);
        assert forall|k: int| 0 <= k < views.len() implies (#[trigger] views[k]).data_type
            is Some by {
            if 1 <= k < 1 + t {
                assert(views.subrange(1, 1 + t)[k - 1] == views[k]);
                assert(column_of(*first_row, SemanticRole::Tag, views[k].name) == Some(views[k]));
            } else if k >= 1 + t {
                assert(views.subrange(1 + t, views.len() as int)[k - 1 - t] == views[k]);
                assert(column_of(*first_row, SemanticRole::Field, views[k].name) == Some(
                    views[k],
                ));
            }
        }
    }
    let mut schema = template;
    let mut i: usize = 0;
    while i < columns.len()
        invariant
            i <= columns.len(),
            views == columns.deep_view(),
            forall|k: int| 0 <= k < views.len() ==> (#[trigger] views[k]).data_type is Some,
            schema_name(schema) == schema_name(template),
            schema_columns(schema) == start + views.take(i as int),
        decreases columns.len() - i,
    {
        let column = &columns[i];
        let ghost so_far = schema_columns(schema);
        if let Some(data_type) = column.data_type {
            schema = match column.semantic_role {
                SemanticRole::Timestamp => add_timestamp(schema, column.name.as_str(), data_type),
                SemanticRole::Tag => add_tag(schema, column.name.as_str(), data_type),
                SemanticRole::Field => add_field(schema, column.name.as_str(), data_type),
            };
        }
        proof {
            assert(views[i as int] == column@);
            assert(schema_columns(schema) == so_far.push(views[i as int]));
            assert(views.take(i + 1) =~= views.take(i as int).push(views[i as int]));
            assert(start + views.take(i + 1) =~= (start + views.take(i as int)).push(
                views[i as int],
            ));
        }
        i += 1;
    }
    proof {
        assert(views.take(views.len() as int) =~= views);
        let all = schema_columns(schema);
        assert(all.take(start.len() as int) =~= start);
        assert(all.skip(start.len() as int) =~= views);
    }
    schema
}

/// Builds the schema of a table from one sample record.
///
/// The schema has the table's name and the columns that the sample infers.
/// There is none for an empty table name, and none where the schema builder
/// does not take the name; nothing else fails.
pub fn terms_to_table_schema(table: &str, first_row: &DynamicValue) -> (schema: Result<
    TableSchema,
    SchemaBuildError,
>)
    ensures
        match schema {
            Ok(s) => {
                &&& table@.len() > 0
                &&& builder_accepts(table@)
                &&& schema_name(s) == table@
                &&& is_inferred_columns(*first_row, schema_columns(s))
            },
            Err(SchemaBuildError::EmptyTableName) => table@.len() == 0,
            Err(SchemaBuildError::Rejected) => table@.len() > 0 && !builder_accepts(table@),
        },
{
    if table.is_empty() {
        return Err(SchemaBuildError::EmptyTableName);
    }
    match build_schema(table) {
        None => Err(SchemaBuildError::Rejected),
        Some(template) => {
            let schema = add_inferred_columns(template, first_row);
            proof {
                assert(schema_columns(schema).skip(0) =~= schema_columns(schema));
            }
            Ok(schema)
        },
    }
}

} // verus!
