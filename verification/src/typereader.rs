//! The builder of the type graph: from the entry at an offset to the type
//! that it describes.

use crate::class_info::{ClassInfo, ClassInfoView};
use crate::entries::{
    children, children_of, entry_position, lemma_entry_position, lemma_get_unit_in_range, locate,
    opt_text, BaseEncoding, CompileUnit, DebugEntry, EntryTag,
};
use crate::extract::{class_views, first_of};
use crate::name_map::{lemma_position_by_names, with_entry, NameMap};
use crate::entries::{clone_opt, get_unit};
use crate::offset::{element_count, extent_product};
use crate::types::{DbgDataType, Members, TypeInfo};
use crate::views::{
    datatype_view, enumerators_view, members_view, type_view, DataTypeView, MembersView, TypeView,
};
use std::collections::HashMap;
use vstd::prelude::*;

verus! {

/// What the types are built from: the entries of the compile units, what
/// is kept of the classes, and the byte order of the program.
pub struct Source {
    pub units: Seq<CompileUnit>,
    pub classes: Map<usize, ClassInfoView>,
    pub big_endian: bool,
}

/// The size of a value of a type, in bytes.
pub open spec fn view_size(t: TypeView) -> u64
    decreases t,
{
    match t.datatype {
        DataTypeView::Uint8 | DataTypeView::Sint8 | DataTypeView::Bool => 1,
        DataTypeView::Uint16 | DataTypeView::Sint16 => 2,
        DataTypeView::Uint32 | DataTypeView::Sint32 | DataTypeView::Float => 4,
        DataTypeView::Uint64 | DataTypeView::Sint64 | DataTypeView::Double => 8,
        DataTypeView::Bitfield { basetype, .. } => view_size(*basetype),
        DataTypeView::Pointer(size, _) => size,
        DataTypeView::Struct { size, .. } => size,
        DataTypeView::Class { size, .. } => size,
        DataTypeView::Union { size, .. } => size,
        DataTypeView::Enum { size, .. } => size,
        DataTypeView::Array { size, .. } => size,
        DataTypeView::TypeRef(_, size) => size,
        DataTypeView::FuncPtr(size) => size,
        DataTypeView::Other(size) => size,
    }
}

/// The value of a type has the size of the type.
pub proof fn lemma_view_size(t: TypeInfo)
    ensures
        view_size(type_view(t)) == t.spec_size(),
    decreases t,
{
    match t.datatype {
        DbgDataType::Bitfield { basetype, .. } => {
            lemma_view_size(*basetype);
        },
        _ => {},
    }
}

/// The integer type of `size` bytes; an integer of one byte stands for a
/// size that no integer type has.
pub open spec fn integer_of(size: u64, signed: bool) -> DataTypeView {
    if size == 1 {
        if signed {
            DataTypeView::Sint8
        } else {
            DataTypeView::Uint8
        }
    } else if size == 2 {
        if signed {
            DataTypeView::Sint16
        } else {
            DataTypeView::Uint16
        }
    } else if size == 4 {
        if signed {
            DataTypeView::Sint32
        } else {
            DataTypeView::Uint32
        }
    } else if size == 8 {
        if signed {
            DataTypeView::Sint64
        } else {
            DataTypeView::Uint64
        }
    } else {
        DataTypeView::Uint8
    }
}

/// An attribute, or `default` where it is absent.
pub open spec fn or_default<T>(o: Option<T>, default: T) -> T {
    match o {
        Some(v) => v,
        None => default,
    }
}

/// The type that a base-type entry describes, by its encoding and its
/// size. An entry without a size has one byte, one without an encoding is
/// unsigned, and an encoding that is not known is read as unsigned.
pub open spec fn base_type(entry: DebugEntry, address_size: u8) -> DataTypeView {
    let size = or_default(entry.byte_size, 1);
    match or_default(entry.encoding, BaseEncoding::Unsigned) {
        BaseEncoding::Address => DataTypeView::Pointer(address_size as u64, 0),
        BaseEncoding::Float => if size == 8 {
            DataTypeView::Double
        } else {
            DataTypeView::Float
        },
        BaseEncoding::Signed | BaseEncoding::SignedChar => integer_of(size, true),
        BaseEncoding::Boolean => if size == 1 {
            DataTypeView::Bool
        } else {
            integer_of(size, false)
        },
        BaseEncoding::Unsigned | BaseEncoding::UnsignedChar | BaseEncoding::Other => integer_of(
            size,
            false,
        ),
    }
}

/// The node for the entry `entry` of the unit `unit` at `offset`: it has
/// the name of the entry, or `inner_name` where the entry has none.
pub open spec fn node(
    entry: DebugEntry,
    unit: int,
    offset: usize,
    datatype: DataTypeView,
    inner_name: Option<Seq<char>>,
) -> TypeView {
    TypeView {
        name: first_of(opt_text(entry.name), inner_name),
        unit_idx: unit as usize,
        datatype,
        dbginfo_offset: offset,
    }
}

/// The bits `bit_offset` up to `bit_offset + bit_size` of a storage unit
/// of type `storage`.
pub open spec fn bitfield_of(storage: TypeView, bit_offset: u16, bit_size: u16) -> TypeView {
    TypeView {
        name: storage.name,
        unit_idx: storage.unit_idx,
        datatype: DataTypeView::Bitfield { basetype: Box::new(storage), bit_offset, bit_size },
        dbginfo_offset: storage.dbginfo_offset,
    }
}

/// The type and the byte offset of the member that `entry` describes,
/// where its declared type is `ty`. A member with a bit size is a bitfield
/// in a storage unit of type `ty`. Where its place is given from the highest
/// bit of the storage unit, the bit offset counts from the lowest bit. Where
/// it is given from the start of the value that holds the member, the
/// storage unit is the one that holds the first bit, and the bit offset
/// counts within it, from the other end on a big-endian machine. `None`
/// where the numbers do not fit.
pub open spec fn placed_member(entry: DebugEntry, ty: TypeView, big_endian: bool) -> Option<
    (TypeView, u64),
> {
    let offset = or_default(entry.member_location, 0);
    let size = view_size(ty) as int;
    let bits: int = size * 8;
    match entry.bit_size {
        None => Some((ty, offset)),
        Some(bit_size) => match entry.bit_offset {
            Some(from_top) => {
                let bit: int = bits - from_top - bit_size;
                if 0 <= bit <= u16::MAX && bit_size <= u16::MAX {
                    Some((bitfield_of(ty, bit as u16, bit_size as u16), offset))
                } else {
                    None
                }
            },
            None => match entry.data_bit_offset {
                Some(from_start) => if size == 0 {
                    None
                } else {
                    let storage: int = offset + ((from_start as int) / bits) * size;
                    let within: int = (from_start as int) % bits;
                    let bit: int = if big_endian {
                        bits - within - bit_size
                    } else {
                        within
                    };
                    if storage <= u64::MAX && 0 <= bit <= u16::MAX && bit_size <= u16::MAX {
                        Some((bitfield_of(ty, bit as u16, bit_size as u16), storage as u64))
                    } else {
                        None
                    }
                },
                None => Some((ty, offset)),
            },
        },
    }
}

/// The extent of the dimension that a subrange entry describes: from the
/// lowest to the highest index where the highest is given, none where that
/// is given as the largest number of 32 or of 64 bits; else the count.
pub open spec fn extent_of(entry: DebugEntry) -> u64 {
    match entry.upper_bound {
        Some(upper) => {
            let lower = or_default(entry.lower_bound, 0);
            if upper == 0xffff_ffff || upper == u64::MAX || lower > upper {
                0
            } else {
                (upper - lower + 1) as u64
            }
        },
        None => or_default(entry.count, 0),
    }
}

/// The extents of the dimensions that the first `n` of the children `kids`
/// describe, outermost first.
pub open spec fn spec_dims(entries: Seq<DebugEntry>, kids: Seq<int>, n: int) -> Seq<u64>
    decreases n,
{
    if n <= 0 {
        Seq::<u64>::empty()
    } else {
        let before = spec_dims(entries, kids, n - 1);
        if entries[kids[n - 1]].tag == EntryTag::SubrangeType {
            before.push(extent_of(entries[kids[n - 1]]))
        } else {
            before
        }
    }
}

/// The named values that the first `n` of the children `kids` describe.
pub open spec fn spec_enumerators(entries: Seq<DebugEntry>, kids: Seq<int>, n: int) -> Seq<
    (Seq<char>, i64),
>
    decreases n,
{
    if n <= 0 {
        Seq::<(Seq<char>, i64)>::empty()
    } else {
        let before = spec_enumerators(entries, kids, n - 1);
        let entry = entries[kids[n - 1]];
        match (entry.tag, entry.name, entry.const_value) {
            (EntryTag::Enumerator, Some(name), Some(value)) => before.push((name@, value)),
            _ => before,
        }
    }
}

/// Whether one of the values is negative.
pub open spec fn any_negative(values: Seq<(Seq<char>, i64)>) -> bool {
    exists|i: int| 0 <= i < values.len() && (#[trigger] values[i]).1 < 0
}

/// Whether an enumeration is signed: as its encoding says, where it has
/// one, else where one of its values is negative.
pub open spec fn enum_signed(entry: DebugEntry, values: Seq<(Seq<char>, i64)>) -> bool {
    match entry.encoding {
        Some(BaseEncoding::Signed) | Some(BaseEncoding::SignedChar) => true,
        Some(_) => false,
        None => any_negative(values),
    }
}

/// The array of `size` bytes with the extents `dim` and elements of type
/// `element`, `stride` bytes apart. Where the elements are arrays
/// themselves, their extents follow those of the array, and the elements
/// and the stride are theirs: an array of arrays is one array of more
/// dimensions.
pub open spec fn flattened(size: u64, dim: Seq<u64>, stride: u64, element: TypeView) -> DataTypeView {
    match element.datatype {
        DataTypeView::Array {
            dim: inner,
            stride: inner_stride,
            arraytype,
            ..
        } => DataTypeView::Array { size, dim: dim + inner, stride: inner_stride, arraytype },
        _ => DataTypeView::Array { size, dim, stride, arraytype: Box::new(element) },
    }
}

/// The array that `entry` describes, with elements of type `element` and
/// the extents `dims`. The stride is the size of an element. A single
/// extent that is not given is taken from the size of the array; a size that
/// is not given is that of all elements. `None` where that size does not
/// fit.
pub open spec fn array_of(entry: DebugEntry, element: TypeView, dims: Seq<u64>) -> Option<
    DataTypeView,
> {
    let stride = view_size(element);
    let dim = match entry.byte_size {
        Some(size) => if dims.len() == 1 && dims[0] == 0 && stride != 0 {
            seq![size / stride]
        } else {
            dims
        },
        None => dims,
    };
    match entry.byte_size {
        Some(size) => Some(flattened(size, dim, stride, element)),
        None => {
            let total = extent_product(dim, dim.len() as int) * stride;
            if total <= u64::MAX {
                Some(flattened(total as u64, dim, stride, element))
            } else {
                None
            }
        },
    }
}

/// The type that the entry at `offset` describes; `None` where no entry
/// stands there, or the entry lacks what its type needs. With `by_key`, a
/// struct, a union or a class is given as a reference to the type under its
/// offset and is not taken apart. `fuel` says how many types may be entered
/// one inside the other.
pub open spec fn spec_type(src: Source, offset: usize, by_key: bool, fuel: nat) -> Option<TypeView>
    decreases fuel, 0nat, 0nat,
{
    if fuel == 0 {
        None
    } else {
        match locate(src.units, offset) {
            None => None,
            Some((u, i)) => {
                let entries = src.units[u].entries@;
                let entry = entries[i];
                let address_size = src.units[u].address_size;
                let kids = children(entries, i);
                match entry.tag {
                    EntryTag::BaseType => Some(
                        node(entry, u, offset, base_type(entry, address_size), None),
                    ),
                    EntryTag::PointerType | EntryTag::ReferenceType => Some(
                        node(
                            entry,
                            u,
                            offset,
                            DataTypeView::Pointer(
                                address_size as u64,
                                or_default(entry.typeref, 0),
                            ),
                            None,
                        ),
                    ),
                    EntryTag::SubroutineType => Some(
                        node(entry, u, offset, DataTypeView::FuncPtr(address_size as u64), None),
                    ),
                    EntryTag::Typedef | EntryTag::ConstType | EntryTag::VolatileType => match entry.typeref {
                        None => Some(node(entry, u, offset, DataTypeView::Other(0), None)),
                        Some(target) => match spec_type(src, target, by_key, (fuel - 1) as nat) {
                            Some(inner) => Some(node(entry, u, offset, inner.datatype, inner.name)),
                            None => None,
                        },
                    },
                    EntryTag::StructureType => match entry.byte_size {
                        None => None,
                        Some(size) => if by_key {
                            Some(node(entry, u, offset, DataTypeView::TypeRef(offset, size), None))
                        } else {
                            Some(
                                node(
                                    entry,
                                    u,
                                    offset,
                                    DataTypeView::Struct {
                                        size,
                                        members: spec_members(
                                            src,
                                            entries,
                                            kids,
                                            kids.len() as int,
                                            (fuel - 1) as nat,
                                        ),
                                    },
                                    None,
                                ),
                            )
                        },
                    },
                    EntryTag::UnionType => match entry.byte_size {
                        None => None,
                        Some(size) => if by_key {
                            Some(node(entry, u, offset, DataTypeView::TypeRef(offset, size), None))
                        } else {
                            Some(
                                node(
                                    entry,
                                    u,
                                    offset,
                                    DataTypeView::Union {
                                        size,
                                        members: spec_members(
                                            src,
                                            entries,
                                            kids,
                                            kids.len() as int,
                                            (fuel - 1) as nat,
                                        ),
                                    },
                                    None,
                                ),
                            )
                        },
                    },
                    EntryTag::ClassType => match entry.byte_size {
                        None => None,
                        Some(size) => if by_key {
                            Some(node(entry, u, offset, DataTypeView::TypeRef(offset, size), None))
                        } else {
                            Some(
                                node(
                                    entry,
                                    u,
                                    offset,
                                    DataTypeView::Class {
                                        size,
                                        inheritance: spec_bases(
                                            src,
                                            entries,
                                            kids,
                                            kids.len() as int,
                                            (fuel - 1) as nat,
                                        ),
                                        members: spec_members(
                                            src,
                                            entries,
                                            kids,
                                            kids.len() as int,
                                            (fuel - 1) as nat,
                                        ),
                                    },
                                    None,
                                ),
                            )
                        },
                    },
                    EntryTag::EnumerationType => match entry.byte_size {
                        None => None,
                        Some(size) => {
                            let enumerators = spec_enumerators(entries, kids, kids.len() as int);
                            Some(
                                node(
                                    entry,
                                    u,
                                    offset,
                                    DataTypeView::Enum {
                                        size,
                                        signed: enum_signed(entry, enumerators),
                                        enumerators,
                                    },
                                    None,
                                ),
                            )
                        },
                    },
                    EntryTag::ArrayType => match entry.typeref {
                        None => None,
                        Some(target) => match spec_type(src, target, false, (fuel - 1) as nat) {
                            None => None,
                            Some(element) => match array_of(
                                entry,
                                element,
                                spec_dims(entries, kids, kids.len() as int),
                            ) {
                                Some(datatype) => Some(node(entry, u, offset, datatype, None)),
                                None => None,
                            },
                        },
                    },
                    _ => Some(node(entry, u, offset, DataTypeView::Uint8, None)),
                }
            },
        }
    }
}

/// The member that the entry `entry` describes: its name, its type and its
/// byte offset. It is one where the entry is a member with a name that is
/// not empty and with a type that can be built.
pub open spec fn spec_member(src: Source, entry: DebugEntry, fuel: nat) -> Option<
    (Seq<char>, (TypeView, u64)),
>
    decreases fuel, 1nat, 0nat,
{
    match (entry.tag, entry.name, entry.typeref) {
        (EntryTag::Member, Some(name), Some(target)) => if name@.len() == 0 {
            None
        } else {
            match spec_type(src, target, true, fuel) {
                Some(ty) => match placed_member(entry, ty, src.big_endian) {
                    Some(placed) => Some((name@, placed)),
                    None => None,
                },
                None => None,
            }
        },
        _ => None,
    }
}

/// The members that the first `n` of the children `kids` describe, in
/// their order; a later member takes the place of an earlier one of the
/// same name.
pub open spec fn spec_members(
    src: Source,
    entries: Seq<DebugEntry>,
    kids: Seq<int>,
    n: int,
    fuel: nat,
) -> MembersView
    decreases fuel, 2nat, n,
{
    if n <= 0 {
        Seq::<(Seq<char>, (TypeView, u64))>::empty()
    } else {
        let before = spec_members(src, entries, kids, n - 1, fuel);
        match spec_member(src, entries[kids[n - 1]], fuel) {
            Some((name, member)) => with_entry(before, name, member),
            None => before,
        }
    }
}

/// The base that the entry `entry` describes: its name, a reference to its
/// type and its byte offset. It is one where the entry is an inheritance
/// entry with a type that can be built; the name is the one kept of the
/// class at that offset, or else the name of the type.
pub open spec fn spec_base(src: Source, entry: DebugEntry, fuel: nat) -> Option<
    (Seq<char>, (TypeView, u64)),
>
    decreases fuel, 1nat, 0nat,
{
    match (entry.tag, entry.typeref) {
        (EntryTag::Inheritance, Some(target)) => match spec_type(src, target, true, fuel) {
            Some(ty) => {
                let name = if src.classes.contains_key(target) {
                    Some(src.classes[target].name)
                } else {
                    ty.name
                };
                match name {
                    Some(name) => Some((name, (ty, or_default(entry.member_location, 0)))),
                    None => None,
                }
            },
            None => None,
        },
        _ => None,
    }
}

/// The bases that the first `n` of the children `kids` describe, in their
/// order.
pub open spec fn spec_bases(
    src: Source,
    entries: Seq<DebugEntry>,
    kids: Seq<int>,
    n: int,
    fuel: nat,
) -> MembersView
    decreases fuel, 2nat, n,
{
    if n <= 0 {
        Seq::<(Seq<char>, (TypeView, u64))>::empty()
    } else {
        let before = spec_bases(src, entries, kids, n - 1, fuel);
        match spec_base(src, entries[kids[n - 1]], fuel) {
            Some((name, base)) => with_entry(before, name, base),
            None => before,
        }
    }
}

/// The number of entries of the first `n` units.
pub open spec fn entry_count(units: Seq<CompileUnit>, n: int) -> nat
    decreases n,
{
    if n <= 0 {
        0
    } else {
        entry_count(units, n - 1) + units[n - 1].entries@.len()
    }
}

/// How many types may be entered one inside the other while a type is
/// built: one more than there are entries, so that only a type that holds
/// itself is cut short.
pub open spec fn type_fuel(units: Seq<CompileUnit>) -> nat {
    if entry_count(units, units.len() as int) < usize::MAX {
        entry_count(units, units.len() as int) + 1
    } else {
        usize::MAX as nat
    }
}

/// Whether `map` leads from each offset at which an entry from `from` on
/// stands to the position of the first such entry.
pub open spec fn indexes(map: Map<usize, usize>, entries: Seq<DebugEntry>, from: int) -> bool {
    &&& forall|offset: usize| #[trigger]
        map.contains_key(offset) <==> entry_position(entries, offset, from) is Some
    &&& forall|offset: usize| #[trigger]
        map.contains_key(offset) ==> entry_position(entries, offset, from) == Some(
            map[offset] as int,
        )
}

/// The position of the first entry at each offset.
fn index_unit(entries: &Vec<DebugEntry>) -> (r: HashMap<usize, usize>)
    ensures
        indexes(r@, entries@, 0),
{
    broadcast use vstd::std_specs::hash::group_hash_axioms;

    let mut map: HashMap<usize, usize> = HashMap::new();
    let mut j: usize = entries.len();
    while j > 0
        invariant
            j <= entries@.len(),
            indexes(map@, entries@, j as int),
        decreases j,
    {
        j -= 1;
        let ghost before = map@;
        let _ = map.insert(entries[j].offset, j);
        proof {
            assert forall|offset: usize| #[trigger]
                map@.contains_key(offset) <==> entry_position(entries@, offset, j as int)
                    is Some by {
                assert(before.contains_key(offset) <==> entry_position(
                    entries@,
                    offset,
                    j + 1,
                ) is Some);
            }
            assert forall|offset: usize| #[trigger] map@.contains_key(offset) implies entry_position(
                entries@,
                offset,
                j as int,
            ) == Some(map@[offset] as int) by {
                if offset != entries@[j as int].offset {
                    assert(before.contains_key(offset));
                }
            }
        }
    }
    map
}

/// The integer type of `size` bytes.
fn integer_type(size: u64, signed: bool) -> (r: DbgDataType)
    ensures
        datatype_view(r) == integer_of(size, signed),
{
    if size == 1 {
        if signed {
            DbgDataType::Sint8
        } else {
            DbgDataType::Uint8
        }
    } else if size == 2 {
        if signed {
            DbgDataType::Sint16
        } else {
            DbgDataType::Uint16
        }
    } else if size == 4 {
        if signed {
            DbgDataType::Sint32
        } else {
            DbgDataType::Uint32
        }
    } else if size == 8 {
        if signed {
            DbgDataType::Sint64
        } else {
            DbgDataType::Uint64
        }
    } else {
        DbgDataType::Uint8
    }
}

/// The type that a base-type entry describes.
fn get_base_type(entry: &DebugEntry, address_size: u8) -> (r: DbgDataType)
    ensures
        datatype_view(r) == base_type(*entry, address_size),
{
    let size = match entry.byte_size {
        Some(size) => size,
        None => 1,
    };
    let encoding = match entry.encoding {
        Some(encoding) => encoding,
        None => BaseEncoding::Unsigned,
    };
    match encoding {
        BaseEncoding::Address => DbgDataType::Pointer(address_size as u64, 0),
        BaseEncoding::Float => if size == 8 {
            DbgDataType::Double
        } else {
            DbgDataType::Float
        },
        BaseEncoding::Signed | BaseEncoding::SignedChar => integer_type(size, true),
        BaseEncoding::Boolean => if size == 1 {
            DbgDataType::Bool
        } else {
            integer_type(size, false)
        },
        BaseEncoding::Unsigned | BaseEncoding::UnsignedChar | BaseEncoding::Other => integer_type(
            size,
            false,
        ),
    }
}

/// The node for the entry `entry` of the unit `unit` at `offset`.
fn make_node(
    entry: &DebugEntry,
    unit: usize,
    offset: usize,
    datatype: DbgDataType,
    inner_name: Option<String>,
) -> (r: TypeInfo)
    ensures
        type_view(r) == node(
            *entry,
            unit as int,
            offset,
            datatype_view(datatype),
            opt_text(inner_name),
        ),
{
    let name = match &entry.name {
        Some(name) => Some(name.clone()),
        None => inner_name,
    };
    TypeInfo { name, unit_idx: unit, datatype, dbginfo_offset: offset }
}

/// The bits `bit_offset` up to `bit_offset + bit_size` of a storage unit
/// of type `storage`.
fn make_bitfield(storage: TypeInfo, bit_offset: u16, bit_size: u16) -> (r: TypeInfo)
    ensures
        type_view(r) == bitfield_of(type_view(storage), bit_offset, bit_size),
{
    let name = clone_opt(&storage.name);
    let unit_idx = storage.unit_idx;
    let dbginfo_offset = storage.dbginfo_offset;
    TypeInfo {
        name,
        unit_idx,
        datatype: DbgDataType::Bitfield { basetype: Box::new(storage), bit_offset, bit_size },
        dbginfo_offset,
    }
}

/// The type and the byte offset of the member that `entry` describes,
/// where its declared type is `ty`.
fn place_member(entry: &DebugEntry, ty: TypeInfo, big_endian: bool) -> (r: Option<(TypeInfo, u64)>)
    ensures
        match (r, placed_member(*entry, type_view(ty), big_endian)) {
            (Some(found), Some(expected)) => type_view(found.0) == expected.0 && found.1
                == expected.1,
            (None, None) => true,
            _ => false,
        },
{
    proof {
        lemma_view_size(ty);
    }
    let offset = match entry.member_location {
        Some(offset) => offset,
        None => 0,
    };
    let bit_size = match entry.bit_size {
        Some(bit_size) => bit_size,
        None => {
            return Some((ty, offset));
        },
    };
    let size = ty.get_size();
    let bits: i128 = (size as i128) * 8;
    if let Some(from_top) = entry.bit_offset {
        let bit: i128 = bits - from_top as i128 - bit_size as i128;
        if 0 <= bit && bit <= 0xffff && bit_size <= 0xffff {
            return Some((make_bitfield(ty, bit as u16, bit_size as u16), offset));
        }
        return None;
    }
    let from_start = match entry.data_bit_offset {
        Some(from_start) => from_start,
        None => {
            return Some((ty, offset));
        },
    };
    if size == 0 {
        return None;
    }
    let units: i128 = from_start as i128 / bits;
    let within: i128 = from_start as i128 % bits;
    proof {
        assert(0 <= units <= from_start) by (nonlinear_arith)
            requires
                units == (from_start as int) / (bits as int),
                bits >= 8,
                from_start >= 0,
        ;
        assert(0 <= within < bits) by (nonlinear_arith)
            requires
                within == (from_start as int) % (bits as int),
                bits >= 8,
        ;
        assert(units * 8 <= from_start) by (nonlinear_arith)
            requires
                units == (from_start as int) / (bits as int),
                bits >= 8,
                from_start >= 0,
        ;
        assert(0 <= units * size <= 0x2000_0000_0000_0000 * 0xffff_ffff_ffff_ffff)
            by (nonlinear_arith)
            requires
                0 <= units <= 0x2000_0000_0000_0000,
                0 <= size <= 0xffff_ffff_ffff_ffff,
        ;
    }
    let storage: i128 = offset as i128 + units * (size as i128);
    let bit: i128 = if big_endian {
        bits - within - bit_size as i128
    } else {
        within
    };
    if storage <= 0xffff_ffff_ffff_ffff && 0 <= bit && bit <= 0xffff && bit_size <= 0xffff {
        Some((make_bitfield(ty, bit as u16, bit_size as u16), storage as u64))
    } else {
        None
    }
}

/// The extent of the dimension that a subrange entry describes.
fn get_extent(entry: &DebugEntry) -> (r: u64)
    ensures
        r == extent_of(*entry),
{
    match entry.upper_bound {
        Some(upper) => {
            let lower = match entry.lower_bound {
                Some(lower) => lower,
                None => 0,
            };
            if upper == 0xffff_ffff || upper == u64::MAX || lower > upper {
                0
            } else {
                upper - lower + 1
            }
        },
        None => match entry.count {
            Some(count) => count,
            None => 0,
        },
    }
}

/// The extents of the dimensions that the children `kids` describe.
fn get_dims(entries: &Vec<DebugEntry>, kids: &Vec<usize>, Ghost(all): Ghost<Seq<int>>) -> (r: Vec<
    u64,
>)
    requires
        all.len() == kids@.len(),
        forall|k: int|
            0 <= k < kids@.len() ==> (#[trigger] kids@[k]) == all[k] && kids@[k] < entries@.len(),
    ensures
        r@ == spec_dims(entries@, all, all.len() as int),
{
    let mut dim: Vec<u64> = Vec::new();
    let mut n: usize = 0;
    while n < kids.len()
        invariant
            n <= kids@.len() == all.len(),
            forall|k: int|
            0 <= k < kids@.len() ==> (#[trigger] kids@[k]) == all[k] && kids@[k] < entries@.len(),
            dim@ == spec_dims(entries@, all, n as int),
        decreases kids@.len() - n,
    {
        let entry = &entries[kids[n]];
        if entry.tag == EntryTag::SubrangeType {
            dim.push(get_extent(entry));
        }
        n += 1;
    }
    dim
}

/// The named values that the children `kids` describe.
fn get_enumerators(
    entries: &Vec<DebugEntry>,
    kids: &Vec<usize>,
    Ghost(all): Ghost<Seq<int>>,
) -> (r: Vec<(String, i64)>)
    requires
        all.len() == kids@.len(),
        forall|k: int|
            0 <= k < kids@.len() ==> (#[trigger] kids@[k]) == all[k] && kids@[k] < entries@.len(),
    ensures
        enumerators_view(r@) == spec_enumerators(entries@, all, all.len() as int),
{
    let mut enumerators: Vec<(String, i64)> = Vec::new();
    let mut n: usize = 0;
    assert(enumerators_view(enumerators@) =~= spec_enumerators(entries@, all, 0));
    while n < kids.len()
        invariant
            n <= kids@.len() == all.len(),
            forall|k: int|
            0 <= k < kids@.len() ==> (#[trigger] kids@[k]) == all[k] && kids@[k] < entries@.len(),
            enumerators_view(enumerators@) == spec_enumerators(entries@, all, n as int),
        decreases kids@.len() - n,
    {
        let entry = &entries[kids[n]];
        if entry.tag == EntryTag::Enumerator {
            if let Some(name) = &entry.name {
                if let Some(value) = entry.const_value {
                    let ghost before = enumerators_view(enumerators@);
                    enumerators.push((name.clone(), value));
                    assert(enumerators_view(enumerators@) =~= before.push((name@, value)));
                }
            }
        }
        n += 1;
    }
    enumerators
}

/// Whether an enumeration with the values `enumerators` is signed.
fn is_signed(entry: &DebugEntry, enumerators: &Vec<(String, i64)>) -> (r: bool)
    ensures
        r == enum_signed(*entry, enumerators_view(enumerators@)),
{
    match entry.encoding {
        Some(BaseEncoding::Signed) => true,
        Some(BaseEncoding::SignedChar) => true,
        Some(_) => false,
        None => {
            let ghost values = enumerators_view(enumerators@);
            let mut i: usize = 0;
            while i < enumerators.len()
                invariant
                    i <= enumerators@.len(),
                    entry.encoding is None,
                    values == enumerators_view(enumerators@),
                    forall|j: int| 0 <= j < i ==> (#[trigger] values[j]).1 >= 0,
                decreases enumerators@.len() - i,
            {
                if enumerators[i].1 < 0 {
                    assert(values[i as int].1 < 0);
                    return true;
                }
                i += 1;
            }
            false
        },
    }
}

/// The array of `size` bytes with the extents `dim` and elements of type
/// `element`, `stride` bytes apart; an array of arrays is made one array of
/// more dimensions.
fn flatten(size: u64, dim: Vec<u64>, stride: u64, element: TypeInfo) -> (r: DbgDataType)
    ensures
        datatype_view(r) == flattened(size, dim@, stride, type_view(element)),
{
    let TypeInfo { name, unit_idx, datatype, dbginfo_offset } = element;
    match datatype {
        DbgDataType::Array { size: _, dim: inner, stride: inner_stride, arraytype } => {
            let mut all = dim;
            let mut inner = inner;
            all.append(&mut inner);
            DbgDataType::Array { size, dim: all, stride: inner_stride, arraytype }
        },
        other => DbgDataType::Array {
            size,
            dim,
            stride,
            arraytype: Box::new(TypeInfo { name, unit_idx, datatype: other, dbginfo_offset }),
        },
    }
}

/// The array that `entry` describes, with elements of type `element` and
/// the extents `dims`.
fn make_array(entry: &DebugEntry, element: TypeInfo, dims: Vec<u64>) -> (r: Option<DbgDataType>)
    ensures
        match (r, array_of(*entry, type_view(element), dims@)) {
            (Some(found), Some(expected)) => datatype_view(found) == expected,
            (None, None) => true,
            _ => false,
        },
{
    proof {
        lemma_view_size(element);
    }
    let stride = element.get_size();
    match entry.byte_size {
        Some(size) => {
            let dim = if dims.len() == 1 && dims[0] == 0 && stride != 0 {
                let mut single: Vec<u64> = Vec::new();
                single.push(size / stride);
                assert(single@ =~= seq![size / stride]);
                single
            } else {
                dims
            };
            Some(flatten(size, dim, stride, element))
        },
        None => {
            let count = element_count(&dims);
            let ghost product = extent_product(dims@, dims@.len() as int);
            if stride == 0 || count == 0 {
                assert(product * stride == 0) by (nonlinear_arith)
                    requires
                        stride == 0 || product == 0,
                ;
                return Some(flatten(0, dims, stride, element));
            }
            if count > 0xffff_ffff_ffff_ffff {
                assert(product * stride > u64::MAX) by (nonlinear_arith)
                    requires
                        product > u64::MAX,
                        stride >= 1,
                ;
                return None;
            }
            match (count as u64).checked_mul(stride) {
                Some(size) => Some(flatten(size, dims, stride, element)),
                None => None,
            }
        },
    }
}

/// Whether `r` is a type with the value `expected`.
pub open spec fn type_is(r: Option<TypeInfo>, expected: Option<TypeView>) -> bool {
    match (r, expected) {
        (Some(t), Some(v)) => type_view(t) == v,
        (None, None) => true,
        _ => false,
    }
}

/// Whether `r` is a member with the value `expected`.
pub open spec fn member_is(
    r: Option<(String, (TypeInfo, u64))>,
    expected: Option<(Seq<char>, (TypeView, u64))>,
) -> bool {
    match (r, expected) {
        (Some(found), Some(e)) => found.0@ == e.0 && type_view(found.1.0) == e.1.0 && found.1.1
            == e.1.1,
        (None, None) => true,
        _ => false,
    }
}

/// The value of a map of members after an entry was put into it.
pub proof fn lemma_members_insert(
    before: Members,
    after: Members,
    name: Seq<char>,
    ty: TypeInfo,
    offset: u64,
)
    requires
        after@ == with_entry(before@, name, (ty, offset)),
    ensures
        members_view(after) == with_entry(members_view(before), name, (type_view(ty), offset)),
{
    lemma_position_by_names(before@, members_view(before), name, 0);
    crate::name_map::lemma_position(before@, name);
    let expected = with_entry(members_view(before), name, (type_view(ty), offset));
    assert(members_view(after).len() == expected.len());
    assert forall|i: int| 0 <= i < expected.len() implies members_view(after)[i]
        == expected[i] by {}
    assert(members_view(after) =~= expected);
}

/// The builder of types: it reads the entries of the compile units and
/// what is kept of the classes.
pub struct TypeReader<'a> {
    units: &'a Vec<CompileUnit>,
    class_names: &'a HashMap<usize, ClassInfo>,
    big_endian: bool,
    index: Vec<HashMap<usize, usize>>,
    fuel: usize,
}

impl<'a> TypeReader<'a> {
    #[verifier::type_invariant]
    spec fn indexed(&self) -> bool {
        &&& self.index@.len() == self.units@.len()
        &&& forall|u: int|
            0 <= u < self.units@.len() ==> indexes(
                (#[trigger] self.index@[u])@,
                self.units@[u].entries@,
                0,
            )
        &&& self.fuel == type_fuel(self.units@)
    }

    /// What the types are built from.
    pub closed spec fn source(&self) -> Source {
        Source {
            units: self.units@,
            classes: class_views(self.class_names@),
            big_endian: self.big_endian,
        }
    }

    /// A builder of types over the entries of `units`.
    pub fn new(
        units: &'a Vec<CompileUnit>,
        class_names: &'a HashMap<usize, ClassInfo>,
        big_endian: bool,
    ) -> (r: Self)
        ensures
            r.source() == (Source {
                units: units@,
                classes: class_views(class_names@),
                big_endian,
            }),
    {
        let mut index: Vec<HashMap<usize, usize>> = Vec::new();
        let mut fuel: usize = 0;
        let mut u: usize = 0;
        while u < units.len()
            invariant
                u <= units@.len(),
                index@.len() == u,
                forall|k: int|
                    0 <= k < u ==> indexes((#[trigger] index@[k])@, units@[k].entries@, 0),
                entry_count(units@, u as int) <= usize::MAX ==> fuel == entry_count(
                    units@,
                    u as int,
                ),
                entry_count(units@, u as int) > usize::MAX ==> fuel == usize::MAX,
            decreases units@.len() - u,
        {
            index.push(index_unit(&units[u].entries));
            fuel = match fuel.checked_add(units[u].entries.len()) {
                Some(sum) => sum,
                None => usize::MAX,
            };
            u += 1;
        }
        fuel = match fuel.checked_add(1) {
            Some(sum) => sum,
            None => usize::MAX,
        };
        TypeReader { units, class_names, big_endian, index, fuel }
    }

    /// The type that the entry at `offset` describes, built anew.
    pub fn get_type(&self, offset: usize) -> (r: Option<TypeInfo>)
        ensures
            type_is(r, spec_type(self.source(), offset, false, type_fuel(self.source().units))),
    {
        proof {
            use_type_invariant(self);
        }
        self.build(offset, false, self.fuel)
    }

    /// The type that the entry at `offset` describes.
    fn build(&self, offset: usize, by_key: bool, fuel: usize) -> (r: Option<TypeInfo>)
        ensures
            type_is(r, spec_type(self.source(), offset, by_key, fuel as nat)),
        decreases fuel, 0nat, 0nat,
    {
        if fuel == 0 {
            return None;
        }
        let (u, i) = match self.find(offset) {
            Some(place) => place,
            None => {
                return None;
            },
        };
        let unit = &self.units[u];
        let entries = &unit.entries;
        let entry = &entries[i];
        let address_size = unit.address_size;
        let ghost all = children(entries@, i as int);
        match entry.tag {
            EntryTag::BaseType => Some(
                make_node(entry, u, offset, get_base_type(entry, address_size), None),
            ),
            EntryTag::PointerType | EntryTag::ReferenceType => {
                let dest = match entry.typeref {
                    Some(dest) => dest,
                    None => 0,
                };
                Some(
                    make_node(
                        entry,
                        u,
                        offset,
                        DbgDataType::Pointer(address_size as u64, dest),
                        None,
                    ),
                )
            },
            EntryTag::SubroutineType => Some(
                make_node(entry, u, offset, DbgDataType::FuncPtr(address_size as u64), None),
            ),
            EntryTag::Typedef | EntryTag::ConstType | EntryTag::VolatileType => match entry.typeref {
                None => Some(make_node(entry, u, offset, DbgDataType::Other(0), None)),
                Some(target) => match self.build(target, by_key, fuel - 1) {
                    Some(inner) => {
                        let TypeInfo { name, unit_idx: _, datatype, dbginfo_offset: _ } = inner;
                        Some(make_node(entry, u, offset, datatype, name))
                    },
                    None => None,
                },
            },
            EntryTag::StructureType => match entry.byte_size {
                None => None,
                Some(size) => if by_key {
                    Some(make_node(entry, u, offset, DbgDataType::TypeRef(offset, size), None))
                } else {
                    let kids = children_of(entries, i);
                    let members = self.members(entries, &kids, Ghost(all), fuel - 1);
                    Some(make_node(entry, u, offset, DbgDataType::Struct { size, members }, None))
                },
            },
            EntryTag::UnionType => match entry.byte_size {
                None => None,
                Some(size) => if by_key {
                    Some(make_node(entry, u, offset, DbgDataType::TypeRef(offset, size), None))
                } else {
                    let kids = children_of(entries, i);
                    let members = self.members(entries, &kids, Ghost(all), fuel - 1);
                    Some(make_node(entry, u, offset, DbgDataType::Union { size, members }, None))
                },
            },
            EntryTag::ClassType => match entry.byte_size {
                None => None,
                Some(size) => if by_key {
                    Some(make_node(entry, u, offset, DbgDataType::TypeRef(offset, size), None))
                } else {
                    let kids = children_of(entries, i);
                    let inheritance = self.bases(entries, &kids, Ghost(all), fuel - 1);
                    let members = self.members(entries, &kids, Ghost(all), fuel - 1);
                    Some(
                        make_node(
                            entry,
                            u,
                            offset,
                            DbgDataType::Class { size, inheritance, members },
                            None,
                        ),
                    )
                },
            },
            EntryTag::EnumerationType => match entry.byte_size {
                None => None,
                Some(size) => {
                    let kids = children_of(entries, i);
                    let enumerators = get_enumerators(entries, &kids, Ghost(all));
                    let signed = is_signed(entry, &enumerators);
                    Some(
                        make_node(
                            entry,
                            u,
                            offset,
                            DbgDataType::Enum { size, signed, enumerators },
                            None,
                        ),
                    )
                },
            },
            EntryTag::ArrayType => match entry.typeref {
                None => None,
                Some(target) => match self.build(target, false, fuel - 1) {
                    None => None,
                    Some(element) => {
                        let kids = children_of(entries, i);
                        let dims = get_dims(entries, &kids, Ghost(all));
                        match make_array(entry, element, dims) {
                            Some(datatype) => Some(make_node(entry, u, offset, datatype, None)),
                            None => None,
                        }
                    },
                },
            },
            _ => Some(make_node(entry, u, offset, DbgDataType::Uint8, None)),
        }
    }

    /// The member that the entry `entry` describes.
    fn member(&self, entry: &DebugEntry, fuel: usize) -> (r: Option<(String, (TypeInfo, u64))>)
        ensures
            member_is(r, spec_member(self.source(), *entry, fuel as nat)),
        decreases fuel, 1nat, 0nat,
    {
        if entry.tag != EntryTag::Member {
            return None;
        }
        let name = match &entry.name {
            Some(name) => name,
            None => {
                return None;
            },
        };
        let target = match entry.typeref {
            Some(target) => target,
            None => {
                return None;
            },
        };
        if name.as_str().is_empty() {
            return None;
        }
        let ty = match self.build(target, true, fuel) {
            Some(ty) => ty,
            None => {
                return None;
            },
        };
        match place_member(entry, ty, self.big_endian) {
            Some(placed) => Some((name.clone(), placed)),
            None => None,
        }
    }

    /// The members that the children `kids` describe.
    fn members(
        &self,
        entries: &Vec<DebugEntry>,
        kids: &Vec<usize>,
        Ghost(all): Ghost<Seq<int>>,
        fuel: usize,
    ) -> (r: Members)
        requires
            all.len() == kids@.len(),
            forall|k: int|
                0 <= k < kids@.len() ==> (#[trigger] kids@[k]) == all[k] && kids@[k]
                    < entries@.len(),
        ensures
            members_view(r) == spec_members(
                self.source(),
                entries@,
                all,
                all.len() as int,
                fuel as nat,
            ),
        decreases fuel, 2nat, 0nat,
    {
        let mut members: Members = NameMap::new();
        let mut n: usize = 0;
        assert(members_view(members) =~= spec_members(
            self.source(),
            entries@,
            all,
            0,
            fuel as nat,
        ));
        while n < kids.len()
            invariant
                n <= kids@.len() == all.len(),
                forall|k: int|
                    0 <= k < kids@.len() ==> (#[trigger] kids@[k]) == all[k] && kids@[k]
                        < entries@.len(),
                members_view(members) == spec_members(
                    self.source(),
                    entries@,
                    all,
                    n as int,
                    fuel as nat,
                ),
            decreases kids@.len() - n,
        {
            if let Some((name, member)) = self.member(&entries[kids[n]], fuel) {
                let ghost before = members;
                let ghost ty = member.0;
                let ghost offset = member.1;
                let _ = members.insert(name, member);
                proof {
                    lemma_members_insert(before, members, name@, ty, offset);
                }
            }
            n += 1;
        }
        members
    }

    /// The base that the entry `entry` describes.
    fn base(&self, entry: &DebugEntry, fuel: usize) -> (r: Option<(String, (TypeInfo, u64))>)
        ensures
            member_is(r, spec_base(self.source(), *entry, fuel as nat)),
        decreases fuel, 1nat, 0nat,
    {
        broadcast use vstd::std_specs::hash::group_hash_axioms;

        if entry.tag != EntryTag::Inheritance {
            return None;
        }
        let target = match entry.typeref {
            Some(target) => target,
            None => {
                return None;
            },
        };
        let ty = match self.build(target, true, fuel) {
            Some(ty) => ty,
            None => {
                return None;
            },
        };
        let name = match self.class_names.get(&target) {
            Some(class) => Some(class.name().to_owned()),
            None => clone_opt(&ty.name),
        };
        let offset = match entry.member_location {
            Some(offset) => offset,
            None => 0,
        };
        match name {
            Some(name) => Some((name, (ty, offset))),
            None => None,
        }
    }

    /// The bases that the children `kids` describe.
    fn bases(
        &self,
        entries: &Vec<DebugEntry>,
        kids: &Vec<usize>,
        Ghost(all): Ghost<Seq<int>>,
        fuel: usize,
    ) -> (r: Members)
        requires
            all.len() == kids@.len(),
            forall|k: int|
                0 <= k < kids@.len() ==> (#[trigger] kids@[k]) == all[k] && kids@[k]
                    < entries@.len(),
        ensures
            members_view(r) == spec_bases(
                self.source(),
                entries@,
                all,
                all.len() as int,
                fuel as nat,
            ),
        decreases fuel, 2nat, 0nat,
    {
        let mut bases: Members = NameMap::new();
        let mut n: usize = 0;
        assert(members_view(bases) =~= spec_bases(self.source(), entries@, all, 0, fuel as nat));
        while n < kids.len()
            invariant
                n <= kids@.len() == all.len(),
                forall|k: int|
                    0 <= k < kids@.len() ==> (#[trigger] kids@[k]) == all[k] && kids@[k]
                        < entries@.len(),
                members_view(bases) == spec_bases(
                    self.source(),
                    entries@,
                    all,
                    n as int,
                    fuel as nat,
                ),
            decreases kids@.len() - n,
        {
            if let Some((name, base)) = self.base(&entries[kids[n]], fuel) {
                let ghost before = bases;
                let ghost ty = base.0;
                let ghost offset = base.1;
                let _ = bases.insert(name, base);
                proof {
                    lemma_members_insert(before, bases, name@, ty, offset);
                }
            }
            n += 1;
        }
        bases
    }

    /// Where the entry at `offset` stands.
    fn find(&self, offset: usize) -> (r: Option<(usize, usize)>)
        ensures
            match r {
                Some((u, i)) => locate(self.source().units, offset) == Some((u as int, i as int))
                    && u < self.source().units.len() && i < self.source().units[u as int].entries@.len(),
                None => locate(self.source().units, offset) is None,
            },
    {
        broadcast use vstd::std_specs::hash::group_hash_axioms;

        let count = self.units.len();
        proof {
            use_type_invariant(self);
            lemma_get_unit_in_range(self.units@, offset, 0);
        }
        let u = match get_unit(self.units, offset) {
            Some(u) => u,
            None => {
                return None;
            },
        };
        proof {
            lemma_entry_position(self.units@[u as int].entries@, offset, 0);
        }
        match self.index[u].get(&offset) {
            Some(i) => Some((u, *i)),
            None => None,
        }
    }
}

} // verus!
