use debug_symbols::class_info::ClassInfo;
use debug_symbols::entries::{BaseEncoding, CompileUnit, DebugEntry, EntryTag};
use debug_symbols::typereader::TypeReader;
use debug_symbols::types::{DbgDataType, TypeInfo};
use std::collections::HashMap;

fn entry(offset: usize, depth_delta: isize, tag: EntryTag, name: Option<&str>) -> DebugEntry {
    let mut e = DebugEntry::new(offset, depth_delta, tag);
    e.name = name.map(str::to_string);
    e
}

fn base(
    offset: usize,
    depth_delta: isize,
    name: &str,
    size: u64,
    encoding: BaseEncoding,
) -> DebugEntry {
    let mut e = entry(offset, depth_delta, EntryTag::BaseType, Some(name));
    e.byte_size = Some(size);
    e.encoding = Some(encoding);
    e
}

fn aggregate(
    offset: usize,
    depth_delta: isize,
    tag: EntryTag,
    name: Option<&str>,
    size: u64,
) -> DebugEntry {
    let mut e = entry(offset, depth_delta, tag, name);
    e.byte_size = Some(size);
    e
}

fn member(
    offset: usize,
    depth_delta: isize,
    name: &str,
    typeref: usize,
    location: Option<u64>,
) -> DebugEntry {
    let mut e = entry(offset, depth_delta, EntryTag::Member, Some(name));
    e.typeref = Some(typeref);
    e.member_location = location;
    e
}

fn bits(mut e: DebugEntry, bit_size: u64, data_bit_offset: u64) -> DebugEntry {
    e.bit_size = Some(bit_size);
    e.data_bit_offset = Some(data_bit_offset);
    e
}

fn subrange(offset: usize, depth_delta: isize, upper_bound: u64) -> DebugEntry {
    let mut e = entry(offset, depth_delta, EntryTag::SubrangeType, None);
    e.upper_bound = Some(upper_bound);
    e
}

fn referring(offset: usize, depth_delta: isize, tag: EntryTag, name: Option<&str>, typeref: usize) -> DebugEntry {
    let mut e = entry(offset, depth_delta, tag, name);
    e.typeref = Some(typeref);
    e
}

fn unit_of(entries: Vec<DebugEntry>) -> Vec<CompileUnit> {
    vec![CompileUnit { offset: 0, length: 0x10000, address_size: 8, entries }]
}

fn built(units: &Vec<CompileUnit>, offset: usize) -> Option<TypeInfo> {
    let classes = HashMap::new();
    TypeReader::new(units, &classes, false).get_type(offset)
}

fn member_of<'a>(t: &'a TypeInfo, name: &str) -> &'a (TypeInfo, u64) {
    match &t.datatype {
        DbgDataType::Struct { members, .. }
        | DbgDataType::Union { members, .. }
        | DbgDataType::Class { members, .. } => members.get(name).unwrap(),
        other => panic!("{:?}", other),
    }
}

fn bitfield_of(t: &TypeInfo, name: &str) -> (u16, u16, u64) {
    let (ty, offset) = member_of(t, name);
    match &ty.datatype {
        DbgDataType::Bitfield { basetype, bit_offset, bit_size } => {
            assert!(matches!(basetype.datatype, DbgDataType::Uint32));
            (*bit_offset, *bit_size, *offset)
        }
        other => panic!("{:?}", other),
    }
}

#[test]
fn bitfields_keep_their_exact_places() {
    let units = unit_of(vec![
        entry(0x0b, 0, EntryTag::CompileUnit, Some("bits.c")),
        base(0x10, 1, "unsigned int", 4, BaseEncoding::Unsigned),
        aggregate(0x20, 0, EntryTag::StructureType, Some("bitfield"), 8),
        bits(member(0x28, 1, "var", 0x10, Some(0)), 5, 0),
        bits(member(0x30, 0, "var2", 0x10, Some(0)), 5, 5),
        bits(member(0x38, 0, "var3", 0x10, Some(0)), 23, 32),
        bits(member(0x40, 0, "var4", 0x10, Some(0)), 1, 55),
    ]);
    let t = built(&units, 0x20).unwrap();
    assert_eq!(t.get_size(), 8);
    assert_eq!(bitfield_of(&t, "var"), (0, 5, 0));
    assert_eq!(bitfield_of(&t, "var2"), (5, 5, 0));
    assert_eq!(bitfield_of(&t, "var3"), (0, 23, 4));
    assert_eq!(bitfield_of(&t, "var4"), (23, 1, 4));
}

#[test]
fn bitfields_counted_from_the_top_are_turned_round() {
    let mut var = member(0x28, 1, "var", 0x10, Some(0));
    var.bit_size = Some(5);
    var.bit_offset = Some(27);
    let mut var3 = member(0x30, 0, "var3", 0x10, Some(4));
    var3.bit_size = Some(23);
    var3.bit_offset = Some(9);
    let mut too_wide = member(0x38, 0, "too_wide", 0x10, Some(4));
    too_wide.bit_size = Some(23);
    too_wide.bit_offset = Some(10);
    let units = unit_of(vec![
        entry(0x0b, 0, EntryTag::CompileUnit, None),
        base(0x10, 1, "unsigned int", 4, BaseEncoding::Unsigned),
        aggregate(0x20, 0, EntryTag::StructureType, None, 8),
        var,
        var3,
        too_wide,
    ]);
    let t = built(&units, 0x20).unwrap();
    assert_eq!(bitfield_of(&t, "var"), (0, 5, 0));
    assert_eq!(bitfield_of(&t, "var3"), (0, 23, 4));
    match &t.datatype {
        DbgDataType::Struct { members, .. } => {
            assert_eq!(members.len(), 2);
            assert!(members.get("too_wide").is_none());
        }
        other => panic!("{:?}", other),
    }
}

#[test]
fn big_endian_bitfields_count_from_the_other_end() {
    let units = unit_of(vec![
        entry(0x0b, 0, EntryTag::CompileUnit, None),
        base(0x10, 1, "unsigned int", 4, BaseEncoding::Unsigned),
        aggregate(0x20, 0, EntryTag::StructureType, None, 4),
        bits(member(0x28, 1, "var", 0x10, None), 5, 0),
    ]);
    let classes = HashMap::new();
    let t = TypeReader::new(&units, &classes, true).get_type(0x20).unwrap();
    assert_eq!(bitfield_of(&t, "var"), (27, 5, 0));
}

#[test]
fn arrays_list_their_extents_outermost_first() {
    let mut counted = entry(0x48, 1, EntryTag::SubrangeType, None);
    counted.count = Some(6);
    let mut unknown = entry(0x68, 1, EntryTag::SubrangeType, None);
    unknown.upper_bound = Some(u64::MAX);
    let mut sized = referring(0x60, -1, EntryTag::ArrayType, None, 0x10);
    sized.byte_size = Some(20);
    let units = unit_of(vec![
        entry(0x0b, 0, EntryTag::CompileUnit, None),
        base(0x10, 1, "float", 4, BaseEncoding::Float),
        referring(0x20, 0, EntryTag::ArrayType, None, 0x10),
        subrange(0x28, 1, 9),
        subrange(0x30, 0, 2),
        subrange(0x38, 0, 6),
        referring(0x40, -1, EntryTag::ArrayType, None, 0x10),
        counted,
        sized,
        unknown,
        referring(0x70, -1, EntryTag::ArrayType, None, 0x9999),
    ]);
    match built(&units, 0x20).unwrap().datatype {
        DbgDataType::Array { size, dim, stride, arraytype } => {
            assert_eq!(dim, vec![10, 3, 7]);
            assert_eq!(stride, 4);
            assert_eq!(size, 840);
            assert!(matches!(arraytype.datatype, DbgDataType::Float));
        }
        other => panic!("{:?}", other),
    }
    match built(&units, 0x40).unwrap().datatype {
        DbgDataType::Array { size, dim, .. } => {
            assert_eq!(dim, vec![6]);
            assert_eq!(size, 24);
        }
        other => panic!("{:?}", other),
    }
    match built(&units, 0x60).unwrap().datatype {
        DbgDataType::Array { size, dim, .. } => {
            assert_eq!(dim, vec![5]);
            assert_eq!(size, 20);
        }
        other => panic!("{:?}", other),
    }
    assert!(built(&units, 0x70).is_none());
}

#[test]
fn arrays_of_arrays_are_one_array() {
    let units = unit_of(vec![
        entry(0x0b, 0, EntryTag::CompileUnit, None),
        base(0x10, 1, "short", 2, BaseEncoding::Signed),
        referring(0x20, 0, EntryTag::ArrayType, None, 0x30),
        subrange(0x28, 1, 1),
        referring(0x30, -1, EntryTag::ArrayType, None, 0x10),
        subrange(0x38, 1, 2),
        referring(0x40, -1, EntryTag::Typedef, Some("row_t"), 0x30),
        referring(0x48, 0, EntryTag::ArrayType, None, 0x40),
        subrange(0x50, 1, 3),
        subrange(0x58, 0, 4),
    ]);
    match built(&units, 0x20).unwrap().datatype {
        DbgDataType::Array { size, dim, stride, arraytype } => {
            assert_eq!(dim, vec![2, 3]);
            assert_eq!(stride, 2);
            assert_eq!(size, 12);
            assert!(matches!(arraytype.datatype, DbgDataType::Sint16));
        }
        other => panic!("{:?}", other),
    }
    match built(&units, 0x48).unwrap().datatype {
        DbgDataType::Array { size, dim, stride, arraytype } => {
            assert_eq!(dim, vec![4, 5, 3]);
            assert_eq!(stride, 2);
            assert_eq!(size, 120);
            assert!(matches!(arraytype.datatype, DbgDataType::Sint16));
        }
        other => panic!("{:?}", other),
    }
}

#[test]
fn base_types_go_by_encoding_and_size() {
    let mut bare = entry(0x60, 0, EntryTag::BaseType, None);
    bare.byte_size = None;
    let units = unit_of(vec![
        entry(0x0b, 0, EntryTag::CompileUnit, None),
        base(0x10, 1, "char", 1, BaseEncoding::SignedChar),
        base(0x18, 0, "short", 2, BaseEncoding::Signed),
        base(0x20, 0, "long", 8, BaseEncoding::Signed),
        base(0x28, 0, "unsigned", 4, BaseEncoding::Unsigned),
        base(0x30, 0, "double", 8, BaseEncoding::Float),
        base(0x38, 0, "bool", 1, BaseEncoding::Boolean),
        base(0x40, 0, "wide", 16, BaseEncoding::Signed),
        base(0x48, 0, "utf", 2, BaseEncoding::Other),
        base(0x50, 0, "addr", 8, BaseEncoding::Address),
        entry(0x58, 0, EntryTag::Other, Some("strange")),
        bare,
    ]);
    let kind = |offset| built(&units, offset).unwrap().datatype;
    assert!(matches!(kind(0x10), DbgDataType::Sint8));
    assert!(matches!(kind(0x18), DbgDataType::Sint16));
    assert!(matches!(kind(0x20), DbgDataType::Sint64));
    assert!(matches!(kind(0x28), DbgDataType::Uint32));
    assert!(matches!(kind(0x30), DbgDataType::Double));
    assert!(matches!(kind(0x38), DbgDataType::Bool));
    assert!(matches!(kind(0x40), DbgDataType::Uint8));
    assert!(matches!(kind(0x48), DbgDataType::Uint16));
    assert!(matches!(kind(0x50), DbgDataType::Pointer(8, 0)));
    assert!(matches!(kind(0x58), DbgDataType::Uint8));
    assert!(matches!(kind(0x60), DbgDataType::Uint8));
    assert_eq!(built(&units, 0x10).unwrap().name, Some("char".to_string()));
    assert_eq!(built(&units, 0x10).unwrap().dbginfo_offset, 0x10);
    assert!(built(&units, 0x11).is_none());
}

#[test]
fn a_struct_that_points_to_itself_is_built() {
    let units = unit_of(vec![
        entry(0x0b, 0, EntryTag::CompileUnit, None),
        base(0x10, 1, "int", 4, BaseEncoding::Signed),
        aggregate(0x20, 0, EntryTag::StructureType, Some("node"), 16),
        member(0x28, 1, "value", 0x10, Some(0)),
        member(0x30, 0, "next", 0x40, Some(8)),
        member(0x38, 0, "", 0x10, Some(4)),
        referring(0x40, -1, EntryTag::PointerType, None, 0x20),
        aggregate(0x50, 0, EntryTag::StructureType, Some("outer"), 32),
        member(0x58, 1, "first", 0x20, Some(0)),
        member(0x60, 0, "alias", 0x70, Some(16)),
        referring(0x70, -1, EntryTag::Typedef, Some("node_t"), 0x78),
        referring(0x78, 0, EntryTag::ConstType, None, 0x20),
        aggregate(0x80, 0, EntryTag::StructureType, Some("selfish"), 8),
        member(0x88, 1, "me", 0x90, Some(0)),
        referring(0x90, -1, EntryTag::ArrayType, None, 0x80),
        entry(0x98, 0, EntryTag::StructureType, Some("declared")),
        referring(0xa0, 0, EntryTag::Typedef, Some("loop_a"), 0xa8),
        referring(0xa8, 0, EntryTag::Typedef, Some("loop_b"), 0xa0),
    ]);
    let node = built(&units, 0x20).unwrap();
    assert_eq!(node.name, Some("node".to_string()));
    assert!(matches!(member_of(&node, "value"), (TypeInfo { datatype: DbgDataType::Sint32, .. }, 0)));
    assert!(matches!(
        member_of(&node, "next"),
        (TypeInfo { datatype: DbgDataType::Pointer(8, 0x20), .. }, 8)
    ));
    match &node.datatype {
        DbgDataType::Struct { members, size } => {
            assert_eq!(*size, 16);
            assert_eq!(members.len(), 2);
        }
        other => panic!("{:?}", other),
    }
    let outer = built(&units, 0x50).unwrap();
    assert!(matches!(
        member_of(&outer, "first"),
        (TypeInfo { datatype: DbgDataType::TypeRef(0x20, 16), .. }, 0)
    ));
    let (alias, at) = member_of(&outer, "alias");
    assert_eq!(*at, 16);
    assert!(matches!(alias.datatype, DbgDataType::TypeRef(0x20, 16)));
    assert_eq!(alias.name, Some("node_t".to_string()));
    assert_eq!(alias.dbginfo_offset, 0x70);
    let whole = built(&units, 0x70).unwrap();
    assert!(matches!(whole.datatype, DbgDataType::Struct { .. }));
    assert_eq!(whole.name, Some("node_t".to_string()));

    let selfish = built(&units, 0x80).unwrap();
    assert!(matches!(selfish.datatype, DbgDataType::Struct { size: 8, .. }));
    assert!(built(&units, 0x98).is_none());
    assert!(built(&units, 0xa0).is_none());
}

#[test]
fn enumerations_keep_their_values() {
    let value = |offset, delta, name: &str, v: i64| {
        let mut e = entry(offset, delta, EntryTag::Enumerator, Some(name));
        e.const_value = Some(v);
        e
    };
    let mut encoded = aggregate(0x50, -1, EntryTag::EnumerationType, None, 1);
    encoded.encoding = Some(BaseEncoding::Signed);
    let units = unit_of(vec![
        entry(0x0b, 0, EntryTag::CompileUnit, None),
        aggregate(0x10, 1, EntryTag::EnumerationType, Some("colour"), 4),
        value(0x18, 1, "red", 0),
        value(0x20, 0, "green", 1),
        entry(0x28, 0, EntryTag::Enumerator, Some("no_value")),
        aggregate(0x30, -1, EntryTag::EnumerationType, Some("sign"), 4),
        value(0x38, 1, "minus", -1),
        value(0x40, 0, "plus", 1),
        encoded,
    ]);
    match built(&units, 0x10).unwrap().datatype {
        DbgDataType::Enum { size, signed, enumerators } => {
            assert_eq!(size, 4);
            assert!(!signed);
            assert_eq!(enumerators, vec![("red".to_string(), 0), ("green".to_string(), 1)]);
        }
        other => panic!("{:?}", other),
    }
    match built(&units, 0x30).unwrap().datatype {
        DbgDataType::Enum { signed, enumerators, .. } => {
            assert!(signed);
            assert_eq!(enumerators.len(), 2);
        }
        other => panic!("{:?}", other),
    }
    assert!(matches!(
        built(&units, 0x50).unwrap().datatype,
        DbgDataType::Enum { signed: true, .. }
    ));
}

#[test]
fn classes_keep_their_bases_by_key() {
    let mut inherits = referring(0x48, 1, EntryTag::Inheritance, None, 0x20);
    inherits.member_location = Some(0);
    let mut inherits2 = referring(0x50, 0, EntryTag::Inheritance, None, 0x30);
    inherits2.member_location = Some(4);
    let units = unit_of(vec![
        entry(0x0b, 0, EntryTag::CompileUnit, None),
        base(0x10, 1, "int", 4, BaseEncoding::Signed),
        aggregate(0x20, 0, EntryTag::ClassType, Some("base1"), 4),
        member(0x28, 1, "base1_var", 0x10, Some(0)),
        aggregate(0x30, -1, EntryTag::StructureType, Some("base2"), 4),
        member(0x38, 1, "base2var", 0x10, Some(0)),
        aggregate(0x40, -1, EntryTag::ClassType, Some("class1"), 12),
        inherits,
        inherits2,
        member(0x58, 0, "ss", 0x10, Some(8)),
    ]);
    let mut classes = HashMap::new();
    classes.insert(
        0x20,
        ClassInfo::new("renamed".to_string(), String::new(), String::new(), false),
    );
    let class1 = TypeReader::new(&units, &classes, false).get_type(0x40).unwrap();
    match &class1.datatype {
        DbgDataType::Class { size, inheritance, members } => {
            assert_eq!(*size, 12);
            assert_eq!(inheritance.len(), 2);
            assert!(matches!(
                inheritance.get("renamed"),
                Some((TypeInfo { datatype: DbgDataType::TypeRef(0x20, 4), .. }, 0))
            ));
            assert!(matches!(
                inheritance.get("base2"),
                Some((TypeInfo { datatype: DbgDataType::TypeRef(0x30, 4), .. }, 4))
            ));
            assert_eq!(members.len(), 1);
            assert!(matches!(
                members.get("ss"),
                Some((TypeInfo { datatype: DbgDataType::Sint32, .. }, 8))
            ));
        }
        other => panic!("{:?}", other),
    }
}
