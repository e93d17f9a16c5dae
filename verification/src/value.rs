//! Dynamic values: what a caller's runtime hands over.
//!
//! A record is a dynamic value, normally a map. A map is read by name: the
//! entry whose key is the atom of that name is taken first, then the entry
//! whose key is the text of that name. Where a map holds a key twice, the
//! first entry counts.

use vstd::prelude::*;
use crate::names::{name_order, NameOrder};

verus! {

/// A value of the caller's runtime, as far as encoding reads it.
#[derive(Debug)]
pub enum DynamicValue {
    /// An integer that fits 64 signed bits.
    Integer(i64),
    /// An integer outside that range.
    BigInteger,
    /// A 64-bit float, held as its IEEE 754 bit pattern.
    Float(u64),
    /// A binary that is valid UTF-8.
    Text(String),
    /// One of the two boolean atoms.
    Boolean(bool),
    /// Any other atom, by its name.
    Atom(String),
    /// A map, entry by entry.
    Mapping(Vec<MapEntry>),
    /// Anything else: a list, a tuple, a binary that is no text.
    Other,
}

/// One entry of a map.
#[derive(Debug)]
pub struct MapEntry {
    pub key: DynamicValue,
    pub value: DynamicValue,
}

/// The name that a key stands for, if it is an atom or a text.
pub open spec fn key_name(key: DynamicValue) -> Option<Seq<char>> {
    match key {
        DynamicValue::Atom(s) => Some(s@),
        DynamicValue::Text(s) => Some(s@),
        _ => None,
    }
}

/// The key is the atom `name` (where `atom` is set) or the text `name`.
pub open spec fn key_is(key: DynamicValue, atom: bool, name: Seq<char>) -> bool {
    match key {
        DynamicValue::Atom(s) => atom && s@ == name,
        DynamicValue::Text(s) => !atom && s@ == name,
        _ => false,
    }
}

/// The value of the first entry at or after `from` whose key is the atom
/// (or the text) `name`.
pub open spec fn find_from(entries: Seq<MapEntry>, atom: bool, name: Seq<char>, from: int) -> Option<
    DynamicValue,
>
    decreases entries.len() - from,
{
    if from < 0 || from >= entries.len() {
        None
    } else if key_is(entries[from].key, atom, name) {
        Some(entries[from].value)
    } else {
        find_from(entries, atom, name, from + 1)
    }
}

/// The entries of a map; none for any other value.
pub open spec fn entries_of(value: DynamicValue) -> Seq<MapEntry> {
    match value {
        DynamicValue::Mapping(entries) => entries@,
        _ => Seq::empty(),
    }
}

/// What a map holds under `name`: the atom key is probed first, then the
/// text key. A value that is no map holds nothing.
pub open spec fn lookup(map: DynamicValue, name: Seq<char>) -> Option<DynamicValue> {
    let entries = entries_of(map);
    match find_from(entries, true, name, 0) {
        Some(v) => Some(v),
        None => find_from(entries, false, name, 0),
    }
}

/// Whatever is found was found in some entry whose key has that name.
pub proof fn lemma_find_from_witness(entries: Seq<MapEntry>, atom: bool, name: Seq<char>, from: int)
    requires
        0 <= from,
        find_from(entries, atom, name, from) is Some,
    ensures
        exists|i: int|
            from <= i < entries.len() && key_is(#[trigger] entries[i].key, atom, name)
                && find_from(entries, atom, name, from) == Some(entries[i].value),
    decreases entries.len() - from,
{
    if key_is(entries[from].key, atom, name) {
    } else {
        lemma_find_from_witness(entries, atom, name, from + 1);
    }
}

/// One more entry, with a key that is not `name`, does not change what is
/// found under `name`, wherever the entry stands.
pub proof fn lemma_find_from_insert(
    entries: Seq<MapEntry>,
    extra: MapEntry,
    at: int,
    atom: bool,
    name: Seq<char>,
    from: int,
)
    requires
        0 <= at <= entries.len(),
        0 <= from <= entries.len(),
        !key_is(extra.key, atom, name),
    ensures
        find_from(entries.insert(at, extra), atom, name, if from <= at { from } else { from + 1 })
            == find_from(entries, atom, name, from),
    decreases entries.len() - from,
{
    let longer = entries.insert(at, extra);
    assert(longer.len() == entries.len() + 1);
    if from == at {
        assert(longer[from] == extra);
        assert(find_from(longer, atom, name, from) == find_from(longer, atom, name, from + 1));
    }
    if from < entries.len() {
        lemma_find_from_insert(entries, extra, at, atom, name, from + 1);
        if from < at {
            assert(longer[from] == entries[from]);
        } else {
            assert(longer[from + 1] == entries[from]);
        }
    }
}

/// A map with one more entry holds the same under every name but that of
/// the new key.
pub proof fn lemma_lookup_insert(
    map: DynamicValue,
    longer: DynamicValue,
    extra: MapEntry,
    at: int,
    name: Seq<char>,
)
    requires
        0 <= at <= entries_of(map).len(),
        entries_of(longer) == entries_of(map).insert(at, extra),
        key_name(extra.key) != Some(name),
    ensures
        lookup(longer, name) == lookup(map, name),
{
    lemma_find_from_insert(entries_of(map), extra, at, true, name, 0);
    lemma_find_from_insert(entries_of(map), extra, at, false, name, 0);
}

/// A name that a map holds is the name of one of its keys.
pub proof fn lemma_lookup_has_key(map: DynamicValue, name: Seq<char>)
    requires
        lookup(map, name) is Some,
    ensures
        exists|i: int|
            0 <= i < entries_of(map).len() && key_name(#[trigger] entries_of(map)[i].key) == Some(
                name,
            ),
{
    let entries = entries_of(map);
    if find_from(entries, true, name, 0) is Some {
        lemma_find_from_witness(entries, true, name, 0);
        let i = choose|i: int|
            0 <= i < entries.len() && key_is(#[trigger] entries[i].key, true, name);
        assert(key_name(entries[i].key) == Some(name));
    } else {
        lemma_find_from_witness(entries, false, name, 0);
        let i = choose|i: int|
            0 <= i < entries.len() && key_is(#[trigger] entries[i].key, false, name);
        assert(key_name(entries[i].key) == Some(name));
    }
}

/// Tells whether two names are the same.
pub fn same_name(a: &str, b: &str) -> (same: bool)
    ensures
        same == (a@ == b@),
{
    match name_order(a, b) {
        NameOrder::Same => true,
        _ => false,
    }
}

/// Searches the entries for the atom key (or the text key) `name`.
fn find_entry<'a>(entries: &'a Vec<MapEntry>, atom: bool, name: &str) -> (found: Option<
    &'a DynamicValue,
>)
    ensures
        match found {
            Some(v) => find_from(entries@, atom, name@, 0) == Some(*v),
            None => find_from(entries@, atom, name@, 0) is None,
        },
{
    let mut i: usize = 0;
    while i < entries.len()
        invariant
            i <= entries.len(),
            find_from(entries@, atom, name@, 0) == find_from(entries@, atom, name@, i as int),
        decreases entries.len() - i,
    {
        let hit = match &entries[i].key {
            DynamicValue::Atom(s) => atom && same_name(s.as_str(), name),
            DynamicValue::Text(s) => !atom && same_name(s.as_str(), name),
            _ => false,
        };
        if hit {
            return Some(&entries[i].value);
        }
        i += 1;
    }
    None
}

/// Reads a map by name: the atom key first, then the text key.
///
/// Returns `None` where the map has neither key, and for every value that is
/// no map.
pub fn get_term<'a>(map: &'a DynamicValue, name: &str) -> (found: Option<&'a DynamicValue>)
    ensures
        match found {
            Some(v) => lookup(*map, name@) == Some(*v),
            None => lookup(*map, name@) is None,
        },
{
    match map {
        DynamicValue::Mapping(entries) => {
            match find_entry(entries, true, name) {
                Some(v) => Some(v),
                None => find_entry(entries, false, name),
            }
        },
        _ => None,
    }
}

} // verus!
