//! The shape of a record.
//!
//! A record is nested when it carries a `tags` or a `fields` entry: its tag
//! columns are then read from the map under `tags`, its field columns from
//! the map under `fields`. Any other record is flat: every column is read
//! from the record itself. The timestamp is read from the record under
//! `timestamp`, or else under `ts`.

use vstd::prelude::*;
use crate::schema::SemanticRole;
use crate::value::{get_term, lookup, DynamicValue};

verus! {

/// The record carries a `tags` or a `fields` entry.
pub open spec fn is_nested(record: DynamicValue) -> bool {
    lookup(record, "tags"@) is Some || lookup(record, "fields"@) is Some
}

/// The map that a record's columns of `role` are read from.
pub open spec fn role_source(record: DynamicValue, role: SemanticRole) -> Option<DynamicValue> {
    match role {
        SemanticRole::Timestamp => Some(record),
        SemanticRole::Tag => if is_nested(record) {
            lookup(record, "tags"@)
        } else {
            Some(record)
        },
        SemanticRole::Field => if is_nested(record) {
            lookup(record, "fields"@)
        } else {
            Some(record)
        },
    }
}

/// The record's timestamp value: what it holds under `timestamp`, or else
/// what it holds under `ts`.
pub open spec fn timestamp_value(record: DynamicValue) -> Option<DynamicValue> {
    match lookup(record, "timestamp"@) {
        Some(v) => Some(v),
        None => lookup(record, "ts"@),
    }
}

/// The value that the column `name` of `role` reads from a record.
pub open spec fn column_value(record: DynamicValue, role: SemanticRole, name: Seq<char>) -> Option<
    DynamicValue,
> {
    match role {
        SemanticRole::Timestamp => timestamp_value(record),
        _ => match role_source(record, role) {
            Some(source) => lookup(source, name),
            None => None,
        },
    }
}

/// Which of a record's two sub-maps is meant.
#[derive(Clone, Copy, Debug, PartialEq, Eq, Structural)]
pub enum SubMapping {
    Tags,
    Fields,
}

/// The sub-map that makes a record malformed: the first of `tags` and
/// `fields` that the record carries with a value that is no map.
pub open spec fn malformed_part(record: DynamicValue) -> Option<SubMapping> {
    if lookup(record, "tags"@) matches Some(t) && !(t is Mapping) {
        Some(SubMapping::Tags)
    } else if lookup(record, "fields"@) matches Some(f) && !(f is Mapping) {
        Some(SubMapping::Fields)
    } else {
        None
    }
}

/// What a record hands to its columns, read once per record.
pub struct RecordSources<'a> {
    record: &'a DynamicValue,
    timestamp: Option<&'a DynamicValue>,
    tags: Option<&'a DynamicValue>,
    fields: Option<&'a DynamicValue>,
}

impl<'a> RecordSources<'a> {
    /// The record that was read.
    pub closed spec fn record(&self) -> DynamicValue {
        *self.record
    }

    #[verifier::type_invariant]
    spec fn wf(&self) -> bool {
        &&& match self.timestamp {
            Some(v) => timestamp_value(*self.record) == Some(*v),
            None => timestamp_value(*self.record) is None,
        }
        &&& match self.tags {
            Some(m) => role_source(*self.record, SemanticRole::Tag) == Some(*m),
            None => role_source(*self.record, SemanticRole::Tag) is None,
        }
        &&& match self.fields {
            Some(m) => role_source(*self.record, SemanticRole::Field) == Some(*m),
            None => role_source(*self.record, SemanticRole::Field) is None,
        }
    }

    /// Reads the value of the column `name` of `role`.
    pub fn value(&self, role: SemanticRole, name: &str) -> (found: Option<&'a DynamicValue>)
        ensures
            match found {
                Some(v) => column_value(self.record(), role, name@) == Some(*v),
                None => column_value(self.record(), role, name@) is None,
            },
    {
        proof {
            use_type_invariant(self);
        }
        let source = match role {
            SemanticRole::Timestamp => {
                return self.timestamp;
            },
            SemanticRole::Tag => self.tags,
            SemanticRole::Field => self.fields,
        };
        match source {
            Some(map) => get_term(map, name),
            None => None,
        }
    }
}

/// Tells whether a value is a map.
pub fn is_mapping(value: &DynamicValue) -> (mapping: bool)
    ensures
        mapping == (*value is Mapping),
{
    match value {
        DynamicValue::Mapping(_) => true,
        _ => false,
    }
}

/// Reads the sources of a record, or tells which sub-map is no map.
pub fn record_sources<'a>(record: &'a DynamicValue) -> (sources: Result<
    RecordSources<'a>,
    SubMapping,
>)
    ensures
        match sources {
            Ok(s) => malformed_part(*record) is None && s.record() == *record,
            Err(part) => malformed_part(*record) == Some(part),
        },
{
    let tags = get_term(record, "tags");
    let fields = get_term(record, "fields");
    if let Some(t) = tags {
        if !is_mapping(t) {
            return Err(SubMapping::Tags);
        }
    }
    if let Some(f) = fields {
        if !is_mapping(f) {
            return Err(SubMapping::Fields);
        }
    }
    let nested = tags.is_some() || fields.is_some();
    let timestamp = match get_term(record, "timestamp") {
        Some(v) => Some(v),
        None => get_term(record, "ts"),
    };
    if nested {
        Ok(RecordSources { record, timestamp, tags, fields })
    } else {
        Ok(RecordSources { record, timestamp, tags: Some(record), fields: Some(record) })
    }
}

} // verus!
