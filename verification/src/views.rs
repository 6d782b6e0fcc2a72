//! The mathematical value of a type of the type graph.

use crate::types::{DbgDataType, Members, TypeInfo};
use vstd::prelude::*;

verus! {

/// The members of a struct, a union or a class, or the bases of a class:
/// each name with the value of its type and its byte offset.
pub type MembersView = Seq<(Seq<char>, (TypeView, u64))>;

/// The mathematical value of a [`TypeInfo`].
pub struct TypeView {
    pub name: Option<Seq<char>>,
    pub unit_idx: usize,
    pub datatype: DataTypeView,
    pub dbginfo_offset: usize,
}

/// The mathematical value of a [`DbgDataType`].
pub enum DataTypeView {
    Uint8,
    Uint16,
    Uint32,
    Uint64,
    Sint8,
    Sint16,
    Sint32,
    Sint64,
    Float,
    Double,
    Bool,
    Bitfield { basetype: Box<TypeView>, bit_offset: u16, bit_size: u16 },
    Pointer(u64, usize),
    Struct { size: u64, members: MembersView },
    Class { size: u64, inheritance: MembersView, members: MembersView },
    Union { size: u64, members: MembersView },
    Enum { size: u64, signed: bool, enumerators: Seq<(Seq<char>, i64)> },
    Array { size: u64, dim: Seq<u64>, stride: u64, arraytype: Box<TypeView> },
    TypeRef(usize, u64),
    FuncPtr(u64),
    Other(u64),
}

/// The value of a type.
pub open spec fn type_view(t: TypeInfo) -> TypeView
    decreases t, 0nat,
{
    TypeView {
        name: match t.name {
            Some(n) => Some(n@),
            None => None,
        },
        unit_idx: t.unit_idx,
        datatype: datatype_view(t.datatype),
        dbginfo_offset: t.dbginfo_offset,
    }
}

/// The value of the structure of a type.
pub open spec fn datatype_view(d: DbgDataType) -> DataTypeView
    decreases d, 0nat,
{
    match d {
        DbgDataType::Uint8 => DataTypeView::Uint8,
        DbgDataType::Uint16 => DataTypeView::Uint16,
        DbgDataType::Uint32 => DataTypeView::Uint32,
        DbgDataType::Uint64 => DataTypeView::Uint64,
        DbgDataType::Sint8 => DataTypeView::Sint8,
        DbgDataType::Sint16 => DataTypeView::Sint16,
        DbgDataType::Sint32 => DataTypeView::Sint32,
        DbgDataType::Sint64 => DataTypeView::Sint64,
        DbgDataType::Float => DataTypeView::Float,
        DbgDataType::Double => DataTypeView::Double,
        DbgDataType::Bool => DataTypeView::Bool,
        DbgDataType::Bitfield { basetype, bit_offset, bit_size } => DataTypeView::Bitfield {
            basetype: Box::new(type_view(*basetype)),
            bit_offset,
            bit_size,
        },
        DbgDataType::Pointer(size, dest) => DataTypeView::Pointer(size, dest),
        DbgDataType::Struct { size, members } => DataTypeView::Struct {
            size,
            members: members_view(members),
        },
        DbgDataType::Class { size, inheritance, members } => DataTypeView::Class {
            size,
            inheritance: members_view(inheritance),
            members: members_view(members),
        },
        DbgDataType::Union { size, members } => DataTypeView::Union {
            size,
            members: members_view(members),
        },
        DbgDataType::Enum { size, signed, enumerators } => DataTypeView::Enum {
            size,
            signed,
            enumerators: enumerators_view(enumerators@),
        },
        DbgDataType::Array { size, dim, stride, arraytype } => DataTypeView::Array {
            size,
            dim: dim@,
            stride,
            arraytype: Box::new(type_view(*arraytype)),
        },
        DbgDataType::TypeRef(key, size) => DataTypeView::TypeRef(key, size),
        DbgDataType::FuncPtr(size) => DataTypeView::FuncPtr(size),
        DbgDataType::Other(size) => DataTypeView::Other(size),
    }
}

/// The value of the named values of an enumeration.
pub open spec fn enumerators_view(enumerators: Seq<(String, i64)>) -> Seq<(Seq<char>, i64)> {
    Seq::new(enumerators.len(), |i: int| (enumerators[i].0@, enumerators[i].1))
}

/// The value of the members of a type.
pub open spec fn members_view(members: Members) -> MembersView
    decreases members, 1nat,
{
    Seq::new(
        members@.len(),
        |i: int|
            (
                members@[i].0,
                (
                    if 0 <= i < members@.len() {
                        proof {
                            members.lemma_value_decreases(i);
                        }
                        type_view(members@[i].1.0)
                    } else {
                        arbitrary()
                    },
                    members@[i].1.1,
                ),
            ),
    )
}

} // verus!
