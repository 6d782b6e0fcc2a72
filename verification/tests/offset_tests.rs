use debug_symbols::name_map::NameMap;
use debug_symbols::offset::find_symbol_by_offset;
use debug_symbols::symbol::{find_symbol, SymbolError};
use debug_symbols::types::{DbgDataType, DebugData, TypeInfo, VarInfo};
use std::collections::HashMap;

fn node(datatype: DbgDataType) -> TypeInfo {
    TypeInfo { datatype, name: None, unit_idx: 0, dbginfo_offset: 0 }
}

fn array(element: TypeInfo, dim: Vec<u64>, stride: u64) -> TypeInfo {
    let size = dim.iter().product::<u64>() * stride;
    node(DbgDataType::Array { arraytype: Box::new(element), dim, size, stride })
}

fn structure(size: u64, members: Vec<(&str, TypeInfo, u64)>) -> TypeInfo {
    let mut map = NameMap::new();
    for (name, ty, offset) in members {
        map.insert(name.to_string(), (ty, offset));
    }
    node(DbgDataType::Struct { size, members: map })
}

fn pair() -> TypeInfo {
    structure(8, vec![("x", node(DbgDataType::Uint16), 0), ("y", node(DbgDataType::Uint32), 4)])
}

fn sample() -> DebugData {
    let inner = pair();
    let outer = structure(
        44,
        vec![
            ("head", node(DbgDataType::Uint8), 0),
            ("pair", node(DbgDataType::TypeRef(7, 8)), 4),
            ("grid", array(node(DbgDataType::Uint16), vec![2, 3], 2), 12),
            ("items", array(pair(), vec![2], 8), 24),
            ("link", node(DbgDataType::Pointer(4, 9)), 40),
        ],
    );
    let knot = structure(4, vec![("again", node(DbgDataType::TypeRef(9, 4)), 0)]);
    let mut types = HashMap::new();
    types.insert(7, inner);
    types.insert(8, outer);
    types.insert(9, knot);
    types.insert(10, node(DbgDataType::Uint32));
    let mut variables = NameMap::new();
    let global = |address, typeref| VarInfo {
        address,
        typeref,
        unit_idx: 3,
        function: Some("f".to_string()),
        namespaces: vec!["n".to_string()],
    };
    variables.insert("s".to_string(), vec![global(0x1000, 8)]);
    variables.insert("knot".to_string(), vec![global(0x2000, 9)]);
    variables.insert("plain".to_string(), vec![global(0x3000, 10)]);
    DebugData::new(variables, types, NameMap::new(), NameMap::new(), Vec::new(), NameMap::new())
        .unwrap()
}

fn named(data: &DebugData, base: &str, offset: u64) -> Result<(String, u64), SymbolError> {
    let base = find_symbol(base, data).unwrap();
    find_symbol_by_offset(&base, offset, data).map(|s| (s.name, s.address))
}

#[test]
fn components_are_found_by_their_offset() {
    let data = sample();
    assert_eq!(named(&data, "s", 0).unwrap(), ("s.head".to_string(), 0x1000));
    assert_eq!(named(&data, "s", 4).unwrap(), ("s.pair".to_string(), 0x1004));
    assert_eq!(named(&data, "s", 8).unwrap(), ("s.pair.y".to_string(), 0x1008));
    assert_eq!(named(&data, "s", 12).unwrap(), ("s.grid".to_string(), 0x100c));
    assert_eq!(named(&data, "s", 14).unwrap(), ("s.grid._0_._1_".to_string(), 0x100e));
    assert_eq!(named(&data, "s", 22).unwrap(), ("s.grid._1_._2_".to_string(), 0x1016));
    assert_eq!(named(&data, "s", 24).unwrap(), ("s.items".to_string(), 0x1018));
    assert_eq!(named(&data, "s", 28).unwrap(), ("s.items._0_.y".to_string(), 0x101c));
    assert_eq!(named(&data, "s", 32).unwrap(), ("s.items._1_".to_string(), 0x1020));
    assert_eq!(named(&data, "s", 36).unwrap(), ("s.items._1_.y".to_string(), 0x1024));
    assert_eq!(named(&data, "s", 40).unwrap(), ("s.link".to_string(), 0x1028));
    assert_eq!(named(&data, "s.grid", 0).unwrap(), ("s.grid._0_._0_".to_string(), 0x100c));
    assert_eq!(named(&data, "s.grid", 6).unwrap(), ("s.grid._1_._0_".to_string(), 0x1012));
    assert_eq!(named(&data, "s.pair", 4).unwrap(), ("s.pair.y".to_string(), 0x1008));
}

#[test]
fn found_components_resolve_to_themselves() {
    let data = sample();
    for offset in [0u64, 4, 8, 12, 14, 22, 24, 28, 32, 36, 40] {
        let (name, address) = named(&data, "s", offset).unwrap();
        let again = find_symbol(&name, &data).unwrap();
        assert_eq!(again.address, address);
        assert_eq!(again.name, name);
    }
}

#[test]
fn found_components_carry_the_context_of_their_base() {
    let data = sample();
    let base = find_symbol("s", &data).unwrap();
    let found = find_symbol_by_offset(&base, 8, &data).unwrap();
    assert!(matches!(found.typeinfo.datatype, DbgDataType::Uint32));
    assert_eq!(found.unit_idx, 3);
    assert_eq!(found.function_name, &Some("f".to_string()));
    assert_eq!(found.namespaces, ["n"]);
    assert!(found.is_unique);
    let pair = find_symbol_by_offset(&base, 4, &data).unwrap();
    assert!(matches!(pair.typeinfo.datatype, DbgDataType::Struct { .. }));
}

#[test]
fn offsets_without_a_component_are_errors() {
    let data = sample();
    match named(&data, "s", 1) {
        Err(SymbolError::NoComponentAtOffset { offset, name }) => {
            assert_eq!(offset, 1);
            assert_eq!(name, "s");
        }
        other => panic!("{:?}", other),
    }
    match named(&data, "s", 45) {
        Err(SymbolError::OffsetOutOfBounds { offset, name }) => {
            assert_eq!(offset, 45);
            assert_eq!(name, "s");
        }
        other => panic!("{:?}", other),
    }
    assert!(matches!(named(&data, "s", 44), Err(SymbolError::NoComponentAtOffset { .. })));
    assert!(matches!(named(&data, "plain", 0), Err(SymbolError::NoComponentAtOffset { .. })));
    assert!(matches!(named(&data, "s.link", 0), Err(SymbolError::NoComponentAtOffset { .. })));
}

#[test]
fn a_type_that_holds_itself_ends_the_search() {
    let data = sample();
    assert_eq!(named(&data, "knot", 0).unwrap(), ("knot.again".to_string(), 0x2000));
    assert!(matches!(named(&data, "knot", 2), Err(SymbolError::NoComponentAtOffset { .. })));
}

#[test]
fn errors_have_their_texts() {
    let data = sample();
    assert_eq!(
        named(&data, "s", 1).unwrap_err().message(),
        "Could not find a symbol component at offset 1 from \"s\""
    );
    assert_eq!(
        named(&data, "s", 45).unwrap_err().message(),
        "Offset 45 is out of bounds for symbol \"s\""
    );
    let text = |expr: &str| find_symbol(expr, &data).map(|s| s.address).unwrap_err().message();
    assert_eq!(text("nothing.x"), "Symbol \"nothing\" does not exist");
    assert_eq!(text("s.pair.z"), "There is no member \"z\" in \"s.pair\"");
    assert_eq!(
        text("s.grid[1][3]"),
        "requested array index 3 in expression \"s.grid.[1].[3]\", but the array only has 3 elements"
    );
    assert_eq!(
        text("s.head.more.still"),
        "Remaining portion \"more.still\" of \"s.head.more.still\" could not be matched"
    );
    assert_eq!(text("s.grid.one"), "could not interpret \"one\" as an array index");
}

#[test]
fn bases_come_before_members() {
    let base = structure(4, vec![("inner", node(DbgDataType::Uint16), 2)]);
    let mut inheritance = NameMap::new();
    inheritance.insert("base1".to_string(), (node(DbgDataType::TypeRef(1, 4)), 0));
    let mut members = NameMap::new();
    members.insert("own".to_string(), (node(DbgDataType::Uint32), 4));
    let class = node(DbgDataType::Class { size: 8, inheritance, members });
    let mut types = HashMap::new();
    types.insert(1, base);
    types.insert(2, class);
    let mut variables = NameMap::new();
    variables.insert(
        "obj".to_string(),
        vec![VarInfo { address: 0x40, typeref: 2, unit_idx: 0, function: None, namespaces: vec![] }],
    );
    let data =
        DebugData::new(variables, types, NameMap::new(), NameMap::new(), Vec::new(), NameMap::new())
            .unwrap();
    assert_eq!(named(&data, "obj", 0).unwrap(), ("obj.base1".to_string(), 0x40));
    assert_eq!(named(&data, "obj", 2).unwrap(), ("obj.base1.inner".to_string(), 0x42));
    assert_eq!(named(&data, "obj", 4).unwrap(), ("obj.own".to_string(), 0x44));
    assert_eq!(find_symbol("obj.base1.inner", &data).unwrap().address, 0x42);
}
