use debug_symbols::name_map::NameMap;
use debug_symbols::parse::{get_additional_spec, split_symbol_components};
use debug_symbols::symbol::{find_symbol, get_index, select_varinfo, SymbolError};
use debug_symbols::types::{DbgDataType, DebugData, TypeInfo, VarInfo};
use std::collections::HashMap;

fn scalar(datatype: DbgDataType) -> TypeInfo {
    TypeInfo { datatype, name: None, unit_idx: usize::MAX, dbginfo_offset: 0 }
}

fn uint32_pair() -> TypeInfo {
    scalar(DbgDataType::Array {
        arraytype: Box::new(scalar(DbgDataType::Uint32)),
        dim: vec![2],
        size: 8,
        stride: 4,
    })
}

fn global(address: u64, typeref: usize) -> VarInfo {
    VarInfo { address, typeref, unit_idx: 0, function: None, namespaces: vec![] }
}

fn data_of(
    variables: NameMap<Vec<VarInfo>>,
    types: HashMap<usize, TypeInfo>,
    unit_names: Vec<Option<String>>,
) -> DebugData {
    DebugData::new(variables, types, NameMap::new(), NameMap::new(), unit_names, NameMap::new())
        .unwrap()
}

fn array_data() -> DebugData {
    let mut variables = NameMap::new();
    variables.insert("my_array".to_string(), vec![global(0x1234, 1)]);
    let mut types = HashMap::new();
    types.insert(1, uint32_pair());
    data_of(variables, types, Vec::new())
}

fn struct_data() -> DebugData {
    let mut structmembers = NameMap::new();
    structmembers.insert("array_item".to_string(), (uint32_pair(), 0));
    let mut variables = NameMap::new();
    variables.insert("my_struct".to_string(), vec![global(0x00ca_fe00, 2)]);
    let mut types = HashMap::new();
    types.insert(
        2,
        TypeInfo {
            datatype: DbgDataType::Struct { members: structmembers, size: 4 },
            unit_idx: 0,
            name: None,
            dbginfo_offset: 0,
        },
    );
    data_of(variables, types, Vec::new())
}

#[test]
fn test_split_symbol_components() {
    let result = split_symbol_components("my_struct.array_field[5][1]");
    assert_eq!(result.len(), 4);
    assert_eq!(result[0], "my_struct");
    assert_eq!(result[1], "array_field");
    assert_eq!(result[2], "[5]");
    assert_eq!(result[3], "[1]");

    let result2 = split_symbol_components("my_struct.array_field._5_._1_");
    assert_eq!(result2.len(), 4);
    assert_eq!(result2[0], "my_struct");
    assert_eq!(result2[1], "array_field");
    assert_eq!(result2[2], "_5_");
    assert_eq!(result2[3], "_1_");
}

#[test]
fn test_find_symbol_of_array() {
    let dbgdata = array_data();

    let result1 = find_symbol("my_array._0_", &dbgdata);
    assert!(result1.is_ok());
    let result2 = find_symbol("my_array[0]", &dbgdata);
    assert!(result2.is_ok());

    let result3 = find_symbol("my_array", &dbgdata);
    assert!(result3.is_ok());

    let result4 = find_symbol("my_array._0_.lalala", &dbgdata);
    assert!(result4.is_err());
    let result5 = find_symbol("my_array._2_", &dbgdata);
    assert!(result5.is_err());
}

#[test]
fn test_find_symbol_of_array_in_struct() {
    let dbgdata = struct_data();

    let result1 = find_symbol("my_struct.array_item._0_", &dbgdata);
    assert!(result1.is_ok());
    let result2 = find_symbol("my_struct.array_item[0]", &dbgdata);
    assert!(result2.is_ok());

    let result3 = find_symbol("my_struct.array_item._0_.extra.unused", &dbgdata);
    assert!(result3.is_err());
}

#[test]
fn test_select_varinfo() {
    let mut types = HashMap::new();
    types.insert(
        0,
        TypeInfo { datatype: DbgDataType::Uint32, name: None, unit_idx: 0, dbginfo_offset: 0 },
    );
    let mut variables = NameMap::new();
    variables.insert(
        "var".to_string(),
        vec![
            VarInfo {
                address: 0,
                typeref: 0,
                unit_idx: 0,
                function: Some("func_a".to_string()),
                namespaces: vec![],
            },
            VarInfo {
                address: 1000,
                typeref: 0,
                unit_idx: 1,
                function: Some("func_b".to_string()),
                namespaces: vec![],
            },
            VarInfo {
                address: 2000,
                typeref: 0,
                unit_idx: 1,
                function: Some("func_c".to_string()),
                namespaces: vec![],
            },
        ],
    );
    let unit_names = vec![Some("file1.c".to_string()), Some("file2.c".to_string())];
    let debug_data = data_of(variables, types, unit_names);
    let varinfo_list = debug_data.variables().get("var").unwrap();
    let (base, additional_spec) =
        get_additional_spec("var{Function:func_a}{CompileUnit:file1_c}{Namespace:Global}");
    assert_eq!(base, "var");
    let varinfo = select_varinfo(varinfo_list, &additional_spec, &debug_data);
    assert_eq!(varinfo.address, 0);
    let (base, additional_spec) =
        get_additional_spec("var{Function:func_b}{CompileUnit:file2_c}{Namespace:Global}");
    assert_eq!(base, "var");
    let varinfo = select_varinfo(varinfo_list, &additional_spec, &debug_data);
    assert_eq!(varinfo.address, 1000);
    let (base, additional_spec) =
        get_additional_spec("var{Function:func_c}{CompileUnit:file2_c}{Namespace:Global}");
    assert_eq!(base, "var");
    let varinfo = select_varinfo(varinfo_list, &additional_spec, &debug_data);
    assert_eq!(varinfo.address, 2000);
}

#[test]
fn test_get_additional_spec() {
    let (base, _add_spec) = get_additional_spec("varname");
    assert_eq!(base, "varname");

    let (base, add_spec) = get_additional_spec(
        "varname{Function:func}{Namespace:Foo}{Namespace:Bar}{CompileUnit:file_c}{Namespace:Global}",
    );
    assert_eq!(base, "varname");
    let add_spec = add_spec.unwrap();
    assert_eq!(add_spec.function_name, Some("func".to_string()));
    assert_eq!(add_spec.namespaces, vec!["Foo", "Bar"]);
    assert_eq!(add_spec.simple_unit_name, Some("file_c".to_string()));
}

#[test]
fn array_elements_have_exact_addresses() {
    let dbgdata = array_data();
    assert_eq!(find_symbol("my_array._0_", &dbgdata).unwrap().address, 0x1234);
    assert_eq!(find_symbol("my_array[0]", &dbgdata).unwrap().address, 0x1234);
    assert_eq!(find_symbol("my_array[1]", &dbgdata).unwrap().address, 0x1238);
    assert_eq!(find_symbol("my_array._1_", &dbgdata).unwrap().address, 0x1238);
    let whole = find_symbol("my_array", &dbgdata).unwrap();
    assert_eq!(whole.address, 0x1234);
    assert!(matches!(whole.typeinfo.datatype, DbgDataType::Array { .. }));
    assert_eq!(whole.name, "my_array");
    assert!(whole.is_unique);
}

#[test]
fn resolver_errors_name_the_offender() {
    let dbgdata = array_data();
    match find_symbol("my_array._0_.lalala", &dbgdata) {
        Err(SymbolError::TrailingComponents { rest, expression }) => {
            assert_eq!(rest, "lalala");
            assert_eq!(expression, "my_array._0_.lalala");
        }
        other => panic!("{:?}", other.map(|s| s.address)),
    }
    match find_symbol("my_array._2_", &dbgdata) {
        Err(SymbolError::IndexOutOfBounds { index, expression, extent }) => {
            assert_eq!(index, 2);
            assert_eq!(expression, "my_array._2_");
            assert_eq!(extent, 2);
        }
        other => panic!("{:?}", other.map(|s| s.address)),
    }
    match find_symbol("my_array.x", &dbgdata) {
        Err(SymbolError::UnparsableIndex { component }) => assert_eq!(component, "x"),
        other => panic!("{:?}", other.map(|s| s.address)),
    }
    match find_symbol("nothing", &dbgdata) {
        Err(SymbolError::SymbolNotFound { name }) => assert_eq!(name, "nothing"),
        other => panic!("{:?}", other.map(|s| s.address)),
    }
    let dbgdata = struct_data();
    match find_symbol("my_struct.other", &dbgdata) {
        Err(SymbolError::MemberNotFound { member, path }) => {
            assert_eq!(member, "other");
            assert_eq!(path, "my_struct");
        }
        other => panic!("{:?}", other.map(|s| s.address)),
    }
}

#[test]
fn index_notations_mean_the_same() {
    assert_eq!(get_index("_5_"), Some(5));
    assert_eq!(get_index("[5]"), Some(5));
    assert_eq!(get_index("[12345]"), Some(12345));
    assert_eq!(get_index("_"), None);
    assert_eq!(get_index("__"), None);
    assert_eq!(get_index("[5_"), None);
    assert_eq!(get_index("_x_"), None);
    assert_eq!(get_index("5"), None);
    assert_eq!(get_index("[99999999999999999999999999]"), None);
    let dbgdata = struct_data();
    assert_eq!(find_symbol("my_struct.array_item._0_", &dbgdata).unwrap().address, 0x00ca_fe00);
    assert_eq!(find_symbol("my_struct.array_item[0]", &dbgdata).unwrap().address, 0x00ca_fe00);
    let a = find_symbol("my_struct.array_item._1_", &dbgdata).unwrap();
    let b = find_symbol("my_struct.array_item[1]", &dbgdata).unwrap();
    assert_eq!(a.address, 0x00ca_fe04);
    assert_eq!(a.address, b.address);
}

fn three_definitions() -> DebugData {
    let mut types = HashMap::new();
    types.insert(0, scalar(DbgDataType::Uint32));
    let definition = |address, unit_idx, function: &str| VarInfo {
        address,
        typeref: 0,
        unit_idx,
        function: Some(function.to_string()),
        namespaces: vec![],
    };
    let mut variables = NameMap::new();
    variables.insert(
        "var".to_string(),
        vec![definition(0, 0, "func_a"), definition(1000, 1, "func_b"), definition(2000, 1, "func_c")],
    );
    variables.insert(
        "spaced".to_string(),
        vec![
            VarInfo {
                address: 10,
                typeref: 0,
                unit_idx: 7,
                function: None,
                namespaces: vec!["Foo".to_string(), "Bar".to_string()],
            },
            VarInfo {
                address: 20,
                typeref: 0,
                unit_idx: 0,
                function: None,
                namespaces: vec!["Bar".to_string(), "Foo".to_string()],
            },
        ],
    );
    data_of(variables, types, vec![None, Some("file2.c".to_string())])
}

#[test]
fn definitions_are_told_apart_by_the_groups() {
    let data = three_definitions();
    let at = |expr: &str| find_symbol(expr, &data).unwrap().address;
    assert_eq!(at("var{Function:func_a}{CompileUnit:file1_c}{Namespace:Global}"), 0);
    assert_eq!(at("var{Function:func_b}{CompileUnit:file2_c}{Namespace:Global}"), 1000);
    assert_eq!(at("var{Function:func_c}{CompileUnit:file2_c}{Namespace:Global}"), 2000);
    assert_eq!(at("var{Function:func_c}"), 2000);
    assert_eq!(at("var{CompileUnit:file2_c}"), 1000);
    assert_eq!(at("var{CompileUnit:file2.c}"), 1000);
    assert_eq!(at("var{CompileUnit:FILE2_c}"), 0);
    assert_eq!(at("var{Function:func_b}{CompileUnit:file1_c}"), 0);
    assert_eq!(at("var{Function:nobody}"), 0);
    assert_eq!(at("var{}"), 0);
    assert_eq!(at("var{Function:func_c"), 0);
    assert_eq!(at("var"), 0);
    assert_eq!(at("spaced{Namespace:Bar}{Namespace:Foo}"), 20);
    assert_eq!(at("spaced{Namespace:Foo}{Namespace:Bar}"), 10);
    assert_eq!(at("spaced{Namespace:Foo}"), 10);
    assert_eq!(at("spaced{CompileUnit:anything}"), 10);

    let chosen = find_symbol("var{Function:func_b}", &data).unwrap();
    assert_eq!(chosen.name, "var");
    assert_eq!(chosen.unit_idx, 1);
    assert_eq!(chosen.function_name, &Some("func_b".to_string()));
    assert!(!chosen.is_unique);
}

#[test]
fn groups_are_read_up_to_the_compile_unit() {
    let (base, spec) =
        get_additional_spec("x{Function:f}{Namespace:Foo}{Namespace:Bar}{CompileUnit:u}{Namespace:Global}");
    let spec = spec.unwrap();
    assert_eq!(base, "x");
    assert_eq!(spec.function_name, Some("f".to_string()));
    assert_eq!(spec.namespaces, vec!["Foo", "Bar"]);
    assert_eq!(spec.simple_unit_name, Some("u".to_string()));

    let (base, spec) = get_additional_spec("a.b[1]{Function:f}{Function:g}{Strange:x}{Namespace:}");
    let spec = spec.unwrap();
    assert_eq!(base, "a.b[1]");
    assert_eq!(spec.function_name, Some("g".to_string()));
    assert_eq!(spec.namespaces, vec![""]);
    assert_eq!(spec.simple_unit_name, None);

    assert!(get_additional_spec("x{").1.is_none());
    assert!(get_additional_spec("x{Function:f").1.is_none());
    assert_eq!(get_additional_spec("x{Function:f").0, "x");
    let (_, spec) = get_additional_spec("x{}");
    let spec = spec.unwrap();
    assert!(spec.function_name.is_none() && spec.namespaces.is_empty());
    let (base, spec) = get_additional_spec("{Function:f}");
    assert_eq!(base, "");
    assert_eq!(spec.unwrap().function_name, Some("f".to_string()));
}

#[test]
fn paths_are_split_at_dots_and_brackets() {
    assert_eq!(split_symbol_components("a"), vec!["a"]);
    assert_eq!(split_symbol_components(""), vec![""]);
    assert_eq!(split_symbol_components("a..b"), vec!["a", "", "b"]);
    assert_eq!(split_symbol_components("a."), vec!["a", ""]);
    assert_eq!(split_symbol_components("[1]"), vec!["", "[1]"]);
    assert_eq!(split_symbol_components("a[1]x[2"), vec!["a", "[1]", "x[2"]);
    assert_eq!(split_symbol_components("a[1].b[2][3].c"), vec!["a", "[1]", "b", "[2]", "[3]", "c"]);
    assert_eq!(split_symbol_components("a]b"), vec!["a]b"]);
}

fn class_data() -> DebugData {
    let mut base_members = NameMap::new();
    base_members.insert("inner".to_string(), (scalar(DbgDataType::Uint16), 2));
    let base = TypeInfo {
        datatype: DbgDataType::Struct { size: 4, members: base_members },
        name: Some("base1".to_string()),
        unit_idx: 0,
        dbginfo_offset: 5,
    };
    let mut inheritance = NameMap::new();
    inheritance.insert("base1".to_string(), (scalar(DbgDataType::TypeRef(5, 4)), 8));
    let mut members = NameMap::new();
    members.insert("own".to_string(), (scalar(DbgDataType::Uint8), 0));
    members.insert(
        "grid".to_string(),
        (
            scalar(DbgDataType::Array {
                arraytype: Box::new(scalar(DbgDataType::Uint16)),
                dim: vec![3, 4],
                size: 24,
                stride: 2,
            }),
            16,
        ),
    );
    let class = scalar(DbgDataType::Class { size: 40, inheritance, members });
    let mut types = HashMap::new();
    types.insert(5, base);
    types.insert(6, class);
    let mut variables = NameMap::new();
    variables.insert("obj".to_string(), vec![global(0x100, 6)]);
    variables.insert("_ZN2ns3objE".to_string(), vec![global(0x200, 6)]);
    variables.insert("high".to_string(), vec![global(u64::MAX - 3, 6)]);
    let mut demangled = NameMap::new();
    demangled.insert("ns::obj".to_string(), "_ZN2ns3objE".to_string());
    DebugData::new(variables, types, NameMap::new(), demangled, Vec::new(), NameMap::new()).unwrap()
}

#[test]
fn a_base_is_entered_by_its_name() {
    let data = class_data();
    let inner = find_symbol("obj.base1.inner", &data).unwrap();
    assert_eq!(inner.address, 0x10a);
    assert!(matches!(inner.typeinfo.datatype, DbgDataType::Uint16));
    let itself = find_symbol("obj.base1._", &data).unwrap();
    assert_eq!(itself.address, 0x108);
    assert!(matches!(itself.typeinfo.datatype, DbgDataType::Struct { size: 4, .. }));
    let plain = find_symbol("obj.base1", &data).unwrap();
    assert_eq!(plain.address, 0x108);
    assert!(matches!(
        find_symbol("obj.base1._.inner", &data),
        Err(SymbolError::TrailingComponents { .. })
    ));
    assert!(matches!(find_symbol("obj.nothing", &data), Err(SymbolError::MemberNotFound { .. })));
    assert_eq!(find_symbol("obj.own", &data).unwrap().address, 0x100);
}

#[test]
fn indices_count_in_row_major_order() {
    let data = class_data();
    let at = |expr: &str| find_symbol(expr, &data).unwrap().address;
    assert_eq!(at("obj.grid"), 0x110);
    assert_eq!(at("obj.grid[0][0]"), 0x110);
    assert_eq!(at("obj.grid[0][3]"), 0x116);
    assert_eq!(at("obj.grid[1][0]"), 0x118);
    assert_eq!(at("obj.grid[2][3]"), 0x126);
    assert_eq!(at("obj.grid._2_[3]"), 0x126);
    assert_eq!(at("obj.grid[2]"), 0x120);
    assert!(matches!(
        find_symbol("obj.grid[3][0]", &data),
        Err(SymbolError::IndexOutOfBounds { index: 3, extent: 3, .. })
    ));
    assert!(matches!(
        find_symbol("obj.grid[0][4]", &data),
        Err(SymbolError::IndexOutOfBounds { index: 4, extent: 4, .. })
    ));
    assert!(matches!(
        find_symbol("obj.grid[0][0][0]", &data),
        Err(SymbolError::TrailingComponents { .. })
    ));
    assert_eq!(at("high.own"), u64::MAX - 3);
    assert_eq!(at("high.grid"), 12);
}

#[test]
fn a_readable_name_leads_to_the_mangled_one() {
    let data = class_data();
    let found = find_symbol("ns::obj.grid[1][1]", &data).unwrap();
    assert_eq!(found.address, 0x21a);
    assert_eq!(found.name, "_ZN2ns3objE.grid[1][1]");
    let with_groups = find_symbol("ns::obj.own{Function:f}", &data).unwrap();
    assert_eq!(with_groups.name, "_ZN2ns3objE.own{Function:f}");
    match find_symbol("ns::obj.nothing", &data) {
        Err(SymbolError::SymbolNotFound { name }) => assert_eq!(name, "ns::obj"),
        other => panic!("{:?}", other.map(|s| s.address)),
    }
    assert!(matches!(
        find_symbol("obj.nothing", &data),
        Err(SymbolError::MemberNotFound { .. })
    ));
    let direct = find_symbol("_ZN2ns3objE.own", &data).unwrap();
    assert_eq!(direct.name, "_ZN2ns3objE.own");
}

#[test]
fn resolving_twice_gives_the_same() {
    let data = class_data();
    for expr in ["obj.grid[1][2]", "obj.base1.inner", "obj.nothing", "ns::obj.own", "x"] {
        let first = find_symbol(expr, &data);
        let second = find_symbol(expr, &data);
        match (first, second) {
            (Ok(a), Ok(b)) => {
                assert_eq!(a.name, b.name);
                assert_eq!(a.address, b.address);
                assert!(std::ptr::eq(a.typeinfo, b.typeinfo));
                assert_eq!(a.unit_idx, b.unit_idx);
                assert_eq!(a.function_name, b.function_name);
                assert_eq!(a.namespaces, b.namespaces);
                assert_eq!(a.is_unique, b.is_unique);
            }
            (Err(a), Err(b)) => assert_eq!(a.message(), b.message()),
            _ => panic!("{expr}"),
        }
    }
}

#[test]
fn data_without_a_type_for_a_variable_is_refused() {
    let mut variables = NameMap::new();
    variables.insert("v".to_string(), vec![global(1, 1)]);
    let mut types = HashMap::new();
    types.insert(2, scalar(DbgDataType::Uint8));
    assert!(!DebugData::is_consistent(&variables, &types));
    assert!(DebugData::new(
        variables,
        types,
        NameMap::new(),
        NameMap::new(),
        Vec::new(),
        NameMap::new()
    )
    .is_none());

    let mut empty = NameMap::new();
    empty.insert("v".to_string(), Vec::<VarInfo>::new());
    assert!(!DebugData::is_consistent(&empty, &HashMap::new()));
}
