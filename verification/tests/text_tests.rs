use debug_symbols::name_map::NameMap;
use debug_symbols::symbol::normalize;
use debug_symbols::text::{
    chars_of, chars_of_range, decimal_string, digit_of, join_range, parse_range, push_decimal,
    string_of_range,
};
use debug_symbols::types::{DbgDataType, TypeInfo};
use std::collections::HashMap;

fn chars(s: &str) -> Vec<char> {
    s.chars().collect()
}

#[test]
fn numbers_are_written_in_decimal() {
    assert_eq!(decimal_string(0), "0");
    assert_eq!(decimal_string(7), "7");
    assert_eq!(decimal_string(10), "10");
    assert_eq!(decimal_string(9_007_199_254_740_993), "9007199254740993");
    assert_eq!(decimal_string(u64::MAX), "18446744073709551615");
    let mut out = chars("n=");
    push_decimal(&mut out, 120);
    assert_eq!(out, chars("n=120"));
}

#[test]
fn numerals_are_read_back() {
    let text = chars("x0012y18446744073709551615z18446744073709551616");
    assert_eq!(parse_range(&text, 1, 5), Some(12));
    assert_eq!(parse_range(&text, 1, 1), None);
    assert_eq!(parse_range(&text, 0, 5), None);
    assert_eq!(parse_range(&text, 6, 26), Some(usize::MAX));
    assert_eq!(parse_range(&text, 27, 47), None);
    assert_eq!(parse_range(&chars("+5"), 0, 2), None);
    assert_eq!(parse_range(&chars("-5"), 0, 2), None);
    assert_eq!(parse_range(&chars("5 "), 0, 2), None);
    for n in [0u64, 9, 10, 255, 65_536, 4_000_000_000] {
        let written = chars(&decimal_string(n));
        assert_eq!(parse_range(&written, 0, written.len()), Some(n as usize));
    }
    assert_eq!(digit_of('0'), Some(0));
    assert_eq!(digit_of('9'), Some(9));
    assert_eq!(digit_of('/'), None);
    assert_eq!(digit_of(':'), None);
    assert_eq!(digit_of('a'), None);
}

#[test]
fn texts_are_cut_and_joined() {
    assert_eq!(chars_of("aé\u{1F600}z"), vec!['a', 'é', '\u{1F600}', 'z']);
    let text = chars("héllo");
    assert_eq!(chars_of_range(&text, 1, 3), vec!['é', 'l']);
    assert_eq!(string_of_range(&text, 1, 5), "éllo");
    assert_eq!(string_of_range(&text, 2, 2), "");
    let parts = vec!["a".to_string(), "".to_string(), "c".to_string()];
    assert_eq!(join_range(&parts, ".", 0, 3), "a..c");
    assert_eq!(join_range(&parts, "::", 1, 3), "::c");
    assert_eq!(join_range(&parts, ".", 2, 3), "c");
    assert_eq!(join_range(&parts, ".", 1, 1), "");
}

#[test]
fn unit_names_are_compared_without_their_marks() {
    assert_eq!(normalize("file1.c"), chars("file1_c"));
    assert_eq!(normalize("src/my-file.C"), chars("src_my_file_C"));
    assert_eq!(normalize("aZ09"), chars("aZ09"));
    assert_eq!(normalize("é "), chars("__"));
    assert_eq!(normalize(""), chars(""));
}

#[test]
fn a_name_map_keeps_the_order_of_its_names() {
    let mut map: NameMap<u32> = NameMap::new();
    assert_eq!(map.len(), 0);
    assert_eq!(map.insert("b".to_string(), 1), None);
    assert_eq!(map.insert("a".to_string(), 2), None);
    assert_eq!(map.insert("c".to_string(), 3), None);
    assert_eq!(map.insert("a".to_string(), 4), Some(2));
    assert_eq!(map.len(), 3);
    assert_eq!(map.get("a"), Some(&4));
    assert_eq!(map.get("b"), Some(&1));
    assert_eq!(map.get("d"), None);
    assert_eq!(map.get_index_of("b"), Some(0));
    assert_eq!(map.get_index_of("a"), Some(1));
    assert_eq!(map.get_index_of("c"), Some(2));
    assert_eq!(map.get_index_of(""), None);
    assert_eq!(map.get_index(1), Some((&"a".to_string(), &4)));
    assert_eq!(map.get_index(3), None);
    assert_eq!(map.name_at(2), "c");
    assert_eq!(map.value_at(2), &3);
    assert_eq!(map.set_at(0, 9), 1);
    assert_eq!(map.get("b"), Some(&9));
    assert_eq!(map.get_index_of("b"), Some(0));

    let copy = map.clone();
    map.insert("e".to_string(), 5);
    assert_eq!(copy.len(), 3);
    assert_eq!(copy.get("a"), Some(&4));
    assert_eq!(copy.get("e"), None);
    assert_eq!(copy.get_index_of("c"), Some(2));
}

#[test]
fn types_have_their_sizes_and_references() {
    let node = |datatype| TypeInfo { datatype, name: None, unit_idx: 0, dbginfo_offset: 0 };
    assert_eq!(node(DbgDataType::Uint8).get_size(), 1);
    assert_eq!(node(DbgDataType::Bool).get_size(), 1);
    assert_eq!(node(DbgDataType::Sint16).get_size(), 2);
    assert_eq!(node(DbgDataType::Float).get_size(), 4);
    assert_eq!(node(DbgDataType::Double).get_size(), 8);
    assert_eq!(node(DbgDataType::Pointer(4, 0)).get_size(), 4);
    assert_eq!(node(DbgDataType::TypeRef(1, 12)).get_size(), 12);
    assert_eq!(node(DbgDataType::FuncPtr(8)).get_size(), 8);
    assert_eq!(node(DbgDataType::Other(3)).get_size(), 3);
    assert_eq!(
        node(DbgDataType::Bitfield {
            basetype: Box::new(node(DbgDataType::Uint32)),
            bit_offset: 3,
            bit_size: 2
        })
        .get_size(),
        4
    );
    assert_eq!(
        node(DbgDataType::Enum { size: 2, signed: false, enumerators: Vec::new() }).get_size(),
        2
    );
    let mut types = HashMap::new();
    types.insert(1, node(DbgDataType::Uint64));
    let there = node(DbgDataType::TypeRef(1, 8));
    let missing = node(DbgDataType::TypeRef(2, 8));
    let plain = node(DbgDataType::Sint8);
    assert!(matches!(there.get_reference(&types).datatype, DbgDataType::Uint64));
    assert!(matches!(missing.get_reference(&types).datatype, DbgDataType::TypeRef(2, 8)));
    assert!(matches!(plain.get_reference(&types).datatype, DbgDataType::Sint8));
}
