use debug_symbols::class_info::ClassInfo;
use debug_symbols::demangle::{demangle_cpp_varnames, readable};
use debug_symbols::entries::{children_of, get_unit, CompileUnit, DebugEntry, EntryTag};
use debug_symbols::extract::{
    get_global_variable, get_varinfo_from_context, DebugDataReader, ExtractError,
};
use debug_symbols::name_map::NameMap;
use debug_symbols::symbol::find_symbol;
use debug_symbols::types::DbgDataType;
use std::collections::HashMap;

fn entry(offset: usize, depth_delta: isize, tag: EntryTag, name: Option<&str>) -> DebugEntry {
    let mut e = DebugEntry::new(offset, depth_delta, tag);
    e.name = name.map(str::to_string);
    e
}

fn variable(
    offset: usize,
    depth_delta: isize,
    name: Option<&str>,
    typeref: Option<usize>,
    location: Option<u64>,
) -> DebugEntry {
    let mut e = entry(offset, depth_delta, EntryTag::Variable, name);
    e.typeref = typeref;
    e.location = location;
    e
}

fn int_type(offset: usize, depth_delta: isize) -> DebugEntry {
    let mut e = entry(offset, depth_delta, EntryTag::BaseType, Some("int"));
    e.byte_size = Some(4);
    e.encoding = Some(debug_symbols::entries::BaseEncoding::Signed);
    e
}

fn unit_of(offset: usize, length: usize, entries: Vec<DebugEntry>) -> CompileUnit {
    CompileUnit { offset, length, address_size: 4, entries }
}

fn reader_of(units: Vec<CompileUnit>) -> DebugDataReader {
    DebugDataReader {
        units,
        unit_names: Vec::new(),
        sections: NameMap::new(),
        class_names: HashMap::new(),
        big_endian: false,
    }
}

fn sample_unit() -> CompileUnit {
    unit_of(
        0,
        0x1000,
        vec![
            entry(0x0b, 0, EntryTag::CompileUnit, Some("file1.c")),
            entry(0x10, 1, EntryTag::Namespace, Some("outer")),
            entry(0x18, 1, EntryTag::Namespace, Some("inner")),
            variable(0x20, 1, Some("nsvar"), Some(0x50), Some(0x100)),
            entry(0x28, 0, EntryTag::ClassType, Some("Widget")),
            entry(0x30, -2, EntryTag::Subprogram, Some("func")),
            variable(0x38, 1, Some("local"), Some(0x50), None),
            variable(0x40, 0, Some("fstatic"), Some(0x50), Some(0x200)),
            int_type(0x50, -1),
            variable(0x58, 0, Some("nsvar"), Some(0x50), Some(0x300)),
            variable(0x60, 0, Some("broken"), None, Some(0x400)),
            variable(0x68, 0, None, Some(0x50), Some(0x500)),
            variable(0x70, 0, Some("orphan"), Some(0x9999), Some(0x600)),
        ],
    )
}

#[test]
fn walk_finds_globals_with_their_context() {
    let mut reader = reader_of(vec![sample_unit()]);
    let variables = reader.load_variables();
    assert_eq!(variables.len(), 3);
    assert_eq!(variables.name_at(0), "nsvar");
    assert_eq!(variables.name_at(1), "fstatic");
    assert_eq!(variables.name_at(2), "orphan");

    let nsvar = variables.get("nsvar").unwrap();
    assert_eq!(nsvar.len(), 2);
    assert_eq!(nsvar[0].address, 0x100);
    assert_eq!(nsvar[0].typeref, 0x50);
    assert_eq!(nsvar[0].unit_idx, 0);
    assert_eq!(nsvar[0].function, None);
    assert_eq!(nsvar[0].namespaces, vec!["outer", "inner"]);
    assert_eq!(nsvar[1].address, 0x300);
    assert!(nsvar[1].namespaces.is_empty());

    let fstatic = variables.get("fstatic").unwrap();
    assert_eq!(fstatic.len(), 1);
    assert_eq!(fstatic[0].address, 0x200);
    assert_eq!(fstatic[0].function, Some("func".to_string()));
    assert!(fstatic[0].namespaces.is_empty());

    assert!(variables.get("local").is_none());
    assert!(variables.get("broken").is_none());

    assert_eq!(reader.unit_names, vec![Some("file1.c".to_string())]);
    let widget = reader.class_names.get(&0x28).unwrap();
    assert_eq!(widget.name(), "Widget");
    assert_eq!(widget.linkage_name(), "");
    assert_eq!(widget.namespace(), "outer::inner");
    assert!(!widget.is_declaration());
}

#[test]
fn context_gives_innermost_function_and_all_namespaces() {
    let context = vec![
        (EntryTag::Namespace, Some("a".to_string())),
        (EntryTag::Subprogram, Some("f".to_string())),
        (EntryTag::Namespace, None),
        (EntryTag::Namespace, Some("b".to_string())),
        (EntryTag::Subprogram, Some("g".to_string())),
        (EntryTag::Other, None),
    ];
    let (function, namespaces) = get_varinfo_from_context(&context);
    assert_eq!(function, Some("g".to_string()));
    assert_eq!(namespaces, vec!["a", "b"]);

    let unnamed = vec![
        (EntryTag::Subprogram, Some("f".to_string())),
        (EntryTag::Subprogram, None),
    ];
    assert_eq!(get_varinfo_from_context(&unnamed).0, None);
    let empty: Vec<(EntryTag, Option<String>)> = Vec::new();
    assert_eq!(get_varinfo_from_context(&empty), (None, Vec::new()));
}

#[test]
fn variable_attributes_follow_the_links() {
    let mut declared = variable(0x20, 1, Some("declared"), Some(0x50), None);
    declared.declaration = Some(true);
    let mut defined = variable(0x30, 0, Some("other_name"), Some(0x60), Some(0x1000));
    defined.specification = Some(1);
    let origin = variable(0x38, 0, Some("origin"), Some(0x70), None);
    let mut inlined = variable(0x40, 0, None, Some(0x80), Some(0x2000));
    inlined.abstract_origin = Some(3);
    let mut inlined_named = variable(0x48, 0, Some("own"), None, Some(0x3000));
    inlined_named.abstract_origin = Some(3);
    let mut dangling = variable(0x4c, 0, Some("plain"), Some(0x90), Some(0x4000));
    dangling.specification = Some(99);
    let unit = unit_of(
        0,
        0x1000,
        vec![
            entry(0x0b, 0, EntryTag::CompileUnit, Some("u.c")),
            declared,
            defined,
            origin,
            inlined,
            inlined_named,
            dangling,
            variable(0x50, 0, Some("local"), Some(0x50), None),
            variable(0x58, 0, None, Some(0x50), Some(1)),
            variable(0x60, 0, Some("untyped"), None, Some(1)),
        ],
    );
    let e = &unit.entries;
    assert_eq!(
        get_global_variable(&e[2], &unit),
        Ok(Some(("declared".to_string(), 0x50, 0x1000)))
    );
    assert_eq!(get_global_variable(&e[4], &unit), Ok(Some(("origin".to_string(), 0x80, 0x2000))));
    assert_eq!(get_global_variable(&e[5], &unit), Ok(Some(("own".to_string(), 0x70, 0x3000))));
    assert_eq!(get_global_variable(&e[6], &unit), Ok(Some(("plain".to_string(), 0x90, 0x4000))));
    assert_eq!(get_global_variable(&e[7], &unit), Ok(None));
    assert_eq!(get_global_variable(&e[8], &unit), Err(ExtractError::MissingName));
    assert_eq!(get_global_variable(&e[9], &unit), Err(ExtractError::MissingType));
}

#[test]
fn depth_may_fall_by_several_levels() {
    let unit = unit_of(
        0,
        0x1000,
        vec![
            entry(0x0b, 0, EntryTag::CompileUnit, None),
            entry(0x10, 1, EntryTag::Namespace, Some("n1")),
            entry(0x18, 1, EntryTag::Subprogram, Some("f")),
            entry(0x20, 1, EntryTag::Other, None),
            variable(0x28, 1, Some("deep"), Some(0x50), Some(1)),
            variable(0x30, -3, Some("shallow"), Some(0x50), Some(2)),
            int_type(0x50, 0),
        ],
    );
    let mut reader = reader_of(vec![unit]);
    let variables = reader.load_variables();
    let deep = &variables.get("deep").unwrap()[0];
    assert_eq!(deep.function, Some("f".to_string()));
    assert_eq!(deep.namespaces, vec!["n1"]);
    let shallow = &variables.get("shallow").unwrap()[0];
    assert_eq!(shallow.function, None);
    assert!(shallow.namespaces.is_empty());
    assert_eq!(reader.unit_names, vec![None]);
}

#[test]
fn no_variable_is_left_without_its_type() {
    let data = reader_of(vec![sample_unit()]).read_debug_info_entries();
    assert_eq!(data.variables().len(), 2);
    assert!(data.variables().get("orphan").is_none());
    for i in 0..data.variables().len() {
        let list = data.variables().value_at(i);
        assert!(!list.is_empty());
        for definition in list {
            assert!(data.types().contains_key(&definition.typeref));
        }
    }
    assert!(matches!(data.types().get(&0x50).unwrap().datatype, DbgDataType::Sint32));
    assert_eq!(data.typenames().get("int"), Some(&0x50));
    assert_eq!(data.unit_names(), &vec![Some("file1.c".to_string())]);

    let first = find_symbol("nsvar", &data).unwrap();
    assert_eq!(first.address, 0x100);
    assert!(!first.is_unique);
    let second = find_symbol("nsvar{Function:nothing}", &data).unwrap();
    assert_eq!(second.address, 0x100);
    let inner = find_symbol("nsvar{Namespace:outer}{Namespace:inner}", &data).unwrap();
    assert_eq!(inner.address, 0x100);
    assert_eq!(inner.namespaces, ["outer", "inner"]);
    let in_func = find_symbol("fstatic{Function:func}{CompileUnit:file1_c}", &data).unwrap();
    assert_eq!(in_func.address, 0x200);
    assert_eq!(in_func.function_name, &Some("func".to_string()));
    assert!(in_func.is_unique);
}

#[test]
fn units_are_found_by_offset() {
    let units = vec![
        unit_of(0, 0x100, Vec::new()),
        unit_of(0x100, 0x80, Vec::new()),
        unit_of(0x180, 0x10, Vec::new()),
    ];
    assert_eq!(get_unit(&units, 0), None);
    assert_eq!(get_unit(&units, 1), Some(0));
    assert_eq!(get_unit(&units, 0xff), Some(0));
    assert_eq!(get_unit(&units, 0x100), None);
    assert_eq!(get_unit(&units, 0x101), Some(1));
    assert_eq!(get_unit(&units, 0x17f), Some(1));
    assert_eq!(get_unit(&units, 0x18f), Some(2));
    assert_eq!(get_unit(&units, 0x190), None);
}

#[test]
fn children_are_the_entries_one_level_below() {
    let entries = vec![
        entry(1, 0, EntryTag::CompileUnit, None),
        entry(2, 1, EntryTag::StructureType, None),
        entry(3, 1, EntryTag::Member, None),
        entry(4, 1, EntryTag::Other, None),
        entry(5, -1, EntryTag::Member, None),
        entry(6, -1, EntryTag::StructureType, None),
        entry(7, 1, EntryTag::Member, None),
    ];
    assert_eq!(children_of(&entries, 0), vec![1, 5]);
    assert_eq!(children_of(&entries, 1), vec![2, 4]);
    assert_eq!(children_of(&entries, 2), vec![3]);
    assert_eq!(children_of(&entries, 3), Vec::<usize>::new());
    assert_eq!(children_of(&entries, 5), vec![6]);
    assert_eq!(children_of(&entries, 6), Vec::<usize>::new());
}

#[test]
fn class_info_keeps_what_it_is_given() {
    let mut info = ClassInfo::new("C".to_string(), "_ZC".to_string(), "a::b".to_string(), true);
    assert_eq!(info.name(), "C");
    assert_eq!(info.linkage_name(), "_ZC");
    assert_eq!(info.namespace(), "a::b");
    assert!(info.is_declaration());
    info.set_name("D".to_string());
    info.set_linkage_name("_ZD".to_string());
    info.set_namespace("x".to_string());
    info.set_is_declaration(false);
    assert_eq!(info.name(), "D");
    assert_eq!(info.linkage_name(), "_ZD");
    assert_eq!(info.namespace(), "x");
    assert!(!info.is_declaration());
}

#[test]
fn mangled_names_get_their_readable_form() {
    let names = vec![
        "_ZN5space3fooE".to_string(),
        "plain".to_string(),
        "_ZTISt9type_info".to_string(),
        "c".to_string(),
        "_Znot_a_symbol".to_string(),
    ];
    let table = demangle_cpp_varnames(&names);
    assert_eq!(table.len(), 1);
    assert_eq!(table.get("space::foo"), Some(&"_ZN5space3fooE".to_string()));
    assert!(table.get("plain").is_none());
}

#[test]
fn readable_names_are_those_of_variables() {
    let good = Some("ns::var".to_string());
    assert_eq!(readable("_ZN2ns3varE", &good), Some(&"ns::var".to_string()));
    assert_eq!(readable("ns3var", &good), None);
    assert_eq!(readable("_ZN2ns3varE", &None), None);
    assert_eq!(readable("_ZTI1x", &Some("typeinfo for x".to_string())), None);
    assert_eq!(readable("_ZTV1x", &Some("{vtable(x)}".to_string())), None);
    assert_eq!(readable("_Z1x", &Some("{other}".to_string())), Some(&"{other}".to_string()));
}
