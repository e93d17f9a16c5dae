use greptime_row_encoder::names::{name_order, NameOrder};
use greptime_row_encoder::value::same_name;

#[test]
fn shorter_name_comes_first() {
    assert_eq!(name_order("cpu", "cpu0"), NameOrder::Before);
    assert_eq!(name_order("cpu0", "cpu"), NameOrder::After);
    assert_eq!(name_order("cpu", "cpu"), NameOrder::Same);
}

#[test]
fn the_empty_name_comes_before_every_other() {
    assert_eq!(name_order("", ""), NameOrder::Same);
    assert_eq!(name_order("", "a"), NameOrder::Before);
    assert_eq!(name_order("a", ""), NameOrder::After);
}

#[test]
fn names_are_ordered_by_their_bytes() {
    assert_eq!(name_order("Zone", "host"), NameOrder::Before);
    assert_eq!(name_order("host", "region"), NameOrder::Before);
    assert_eq!(name_order("region", "host"), NameOrder::After);
    assert_eq!(name_order("z", "\u{e9}"), NameOrder::Before);
    assert_eq!(name_order("\u{e9}", "\u{4e2d}"), NameOrder::Before);
}

#[test]
fn name_order_agrees_with_the_order_of_strings() {
    let names = ["", "a", "ab", "b", "B", "host", "h\u{f6}st", "ts", "tags", "\u{1f600}"];
    for a in names {
        for b in names {
            let expected = match a.cmp(b) {
                std::cmp::Ordering::Less => NameOrder::Before,
                std::cmp::Ordering::Equal => NameOrder::Same,
                std::cmp::Ordering::Greater => NameOrder::After,
            };
            assert_eq!(name_order(a, b), expected, "{a:?} against {b:?}");
        }
    }
}

#[test]
fn same_name_tells_equal_names_only() {
    assert!(same_name("tags", "tags"));
    assert!(!same_name("tags", "tag"));
    assert!(!same_name("tags", "Tags"));
}
