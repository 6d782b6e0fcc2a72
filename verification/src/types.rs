//! Variables and the graph of their types.

use crate::name_map::NameMap;
use crate::text::texts;
use std::collections::HashMap;
use vstd::prelude::*;

verus! {

/// One definition of a global or static variable.
#[derive(Clone, Debug)]
pub struct VarInfo {
    /// Where the variable lives.
    pub address: u64,
    /// The key of its type in the type map.
    pub typeref: usize,
    /// The compile unit that defines it.
    pub unit_idx: usize,
    /// The function around it, for a static variable of a function.
    pub function: Option<String>,
    /// The namespaces around it, outermost first.
    pub namespaces: Vec<String>,
}

/// The mathematical value of a [`VarInfo`].
pub struct VarInfoView {
    pub address: u64,
    pub typeref: usize,
    pub unit_idx: usize,
    pub function: Option<Seq<char>>,
    pub namespaces: Seq<Seq<char>>,
}

impl View for VarInfo {
    type V = VarInfoView;

    open spec fn view(&self) -> VarInfoView {
        VarInfoView {
            address: self.address,
            typeref: self.typeref,
            unit_idx: self.unit_idx,
            function: match self.function {
                Some(f) => Some(f@),
                None => None,
            },
            namespaces: texts(self.namespaces@),
        }
    }
}

impl VarInfo {
    /// A copy of the definition.
    pub fn duplicate(&self) -> (r: Self)
        ensures
            r@ == self@,
    {
        let function = match &self.function {
            Some(f) => Some(f.clone()),
            None => None,
        };
        let mut namespaces: Vec<String> = Vec::new();
        let mut i: usize = 0;
        while i < self.namespaces.len()
            invariant
                i <= self.namespaces@.len(),
                namespaces@.len() == i,
                forall|j: int| 0 <= j < i ==> namespaces@[j]@ == self.namespaces@[j]@,
            decreases self.namespaces@.len() - i,
        {
            namespaces.push(self.namespaces[i].clone());
            i += 1;
        }
        assert(texts(namespaces@) =~= texts(self.namespaces@));
        VarInfo {
            address: self.address,
            typeref: self.typeref,
            unit_idx: self.unit_idx,
            function,
            namespaces,
        }
    }
}

/// The members of a struct, a union or a class, or the bases of a class:
/// each name with its type and its byte offset, in declaration order.
pub type Members = NameMap<(TypeInfo, u64)>;

/// A node of the type graph.
#[derive(Debug)]
pub struct TypeInfo {
    /// The name of the type, where it has one.
    pub name: Option<String>,
    /// The compile unit that declares it.
    pub unit_idx: usize,
    /// Its structure.
    pub datatype: DbgDataType,
    /// The key under which the type map holds it.
    pub dbginfo_offset: usize,
}

/// The structure of a type.
#[derive(Debug)]
pub enum DbgDataType {
    Uint8,
    Uint16,
    Uint32,
    Uint64,
    Sint8,
    Sint16,
    Sint32,
    Sint64,
    Float,
    Double,
    Bool,
    /// Some bits of a storage unit of type `basetype`.
    Bitfield { basetype: Box<TypeInfo>, bit_offset: u16, bit_size: u16 },
    /// A pointer of the given byte size to the type with the given key.
    Pointer(u64, usize),
    Struct { size: u64, members: Members },
    Class { size: u64, inheritance: Members, members: Members },
    Union { size: u64, members: Members },
    Enum { size: u64, signed: bool, enumerators: Vec<(String, i64)> },
    /// `dim` holds the extent of each dimension, outermost first; `stride`
    /// is the distance in bytes from one element to the next.
    Array { size: u64, dim: Vec<u64>, stride: u64, arraytype: Box<TypeInfo> },
    /// The type with the given key, of the given byte size.
    TypeRef(usize, u64),
    FuncPtr(u64),
    Other(u64),
}

impl TypeInfo {
    /// The size of a value of the type, in bytes.
    pub open spec fn spec_size(&self) -> u64
        decreases *self,
    {
        match self.datatype {
            DbgDataType::Uint8 | DbgDataType::Sint8 | DbgDataType::Bool => 1,
            DbgDataType::Uint16 | DbgDataType::Sint16 => 2,
            DbgDataType::Uint32 | DbgDataType::Sint32 | DbgDataType::Float => 4,
            DbgDataType::Uint64 | DbgDataType::Sint64 | DbgDataType::Double => 8,
            DbgDataType::Bitfield { basetype, .. } => basetype.spec_size(),
            DbgDataType::Pointer(size, _) => size,
            DbgDataType::Struct { size, .. } => size,
            DbgDataType::Class { size, .. } => size,
            DbgDataType::Union { size, .. } => size,
            DbgDataType::Enum { size, .. } => size,
            DbgDataType::Array { size, .. } => size,
            DbgDataType::TypeRef(_, size) => size,
            DbgDataType::FuncPtr(size) => size,
            DbgDataType::Other(size) => size,
        }
    }

    /// The size of a value of the type, in bytes.
    pub fn get_size(&self) -> (r: u64)
        ensures
            r == self.spec_size(),
        decreases *self,
    {
        match &self.datatype {
            DbgDataType::Uint8 | DbgDataType::Sint8 | DbgDataType::Bool => 1,
            DbgDataType::Uint16 | DbgDataType::Sint16 => 2,
            DbgDataType::Uint32 | DbgDataType::Sint32 | DbgDataType::Float => 4,
            DbgDataType::Uint64 | DbgDataType::Sint64 | DbgDataType::Double => 8,
            DbgDataType::Bitfield { basetype, .. } => basetype.get_size(),
            DbgDataType::Pointer(size, _) => *size,
            DbgDataType::Struct { size, .. } => *size,
            DbgDataType::Class { size, .. } => *size,
            DbgDataType::Union { size, .. } => *size,
            DbgDataType::Enum { size, .. } => *size,
            DbgDataType::Array { size, .. } => *size,
            DbgDataType::TypeRef(_, size) => *size,
            DbgDataType::FuncPtr(size) => *size,
            DbgDataType::Other(size) => *size,
        }
    }

    /// The type that `self` stands for: the type under its key where `self`
    /// refers to a type that `types` holds, else `self`.
    pub open spec fn spec_reference(&self, types: Map<usize, TypeInfo>) -> TypeInfo {
        match self.datatype {
            DbgDataType::TypeRef(key, _) => if types.contains_key(key) {
                types[key]
            } else {
                *self
            },
            _ => *self,
        }
    }

    /// The type that `self` stands for: the type under its key where `self`
    /// refers to a type that `types` holds, else `self`.
    pub fn get_reference<'a>(&'a self, types: &'a HashMap<usize, TypeInfo>) -> (r: &'a TypeInfo)
        ensures
            *r == self.spec_reference(types@),
    {
        broadcast use vstd::std_specs::hash::group_hash_axioms;

        match &self.datatype {
            DbgDataType::TypeRef(key, _) => match types.get(key) {
                Some(t) => t,
                None => self,
            },
            _ => self,
        }
    }
}

/// Every definition of every variable has a type that `types` holds.
pub open spec fn typerefs_resolve(
    variables: Seq<(Seq<char>, Vec<VarInfo>)>,
    types: Map<usize, TypeInfo>,
) -> bool {
    forall|i: int, j: int|
        0 <= i < variables.len() && 0 <= j < variables[i].1@.len() ==> types.contains_key(
            (#[trigger] variables[i].1@[j]).typeref,
        )
}

/// Every variable has at least one definition.
pub open spec fn all_defined(variables: Seq<(Seq<char>, Vec<VarInfo>)>) -> bool {
    forall|i: int| 0 <= i < variables.len() ==> (#[trigger] variables[i]).1@.len() > 0
}

/// What is known of one program: its variables, the graph of their types,
/// and the names by which both are found. Every definition of a variable in
/// it has its type in the type map, and every variable has a definition.
pub struct DebugData {
    variables: NameMap<Vec<VarInfo>>,
    types: HashMap<usize, TypeInfo>,
    typenames: NameMap<usize>,
    demangled_names: NameMap<String>,
    unit_names: Vec<Option<String>>,
    sections: NameMap<(u64, u64)>,
}

impl DebugData {
    #[verifier::type_invariant]
    spec fn consistent(&self) -> bool {
        typerefs_resolve(self.variables@, self.types@) && all_defined(self.variables@)
    }

    /// The variables: each name with its definitions, in the order in which
    /// the names were first met.
    pub closed spec fn spec_variables(&self) -> Seq<(Seq<char>, Vec<VarInfo>)> {
        self.variables@
    }

    /// The type map: each type under its key.
    pub closed spec fn spec_types(&self) -> Map<usize, TypeInfo> {
        self.types@
    }

    /// The key of a type of each name.
    pub closed spec fn spec_typenames(&self) -> Seq<(Seq<char>, usize)> {
        self.typenames@
    }

    /// The mangled name behind each demangled name.
    pub closed spec fn spec_demangled_names(&self) -> Seq<(Seq<char>, String)> {
        self.demangled_names@
    }

    /// The display name of each compile unit.
    pub closed spec fn spec_unit_names(&self) -> Seq<Option<String>> {
        self.unit_names@
    }

    /// The address range of each section.
    pub closed spec fn spec_sections(&self) -> Seq<(Seq<char>, (u64, u64))> {
        self.sections@
    }

    /// Whether every definition among `variables` has a type in `types`, and
    /// every variable a definition.
    pub fn is_consistent(
        variables: &NameMap<Vec<VarInfo>>,
        types: &HashMap<usize, TypeInfo>,
    ) -> (r: bool)
        ensures
            r == (typerefs_resolve(variables@, types@) && all_defined(variables@)),
    {
        broadcast use vstd::std_specs::hash::group_hash_axioms;

        let mut i: usize = 0;
        while i < variables.len()
            invariant
                i <= variables@.len(),
                forall|k: int, j: int|
                    0 <= k < i && 0 <= j < variables@[k].1@.len() ==> types@.contains_key(
                        (#[trigger] variables@[k].1@[j]).typeref,
                    ),
                forall|k: int| 0 <= k < i ==> (#[trigger] variables@[k]).1@.len() > 0,
            decreases variables@.len() - i,
        {
            let list = match variables.get_index(i) {
                Some((_, list)) => list,
                None => {
                    return false;
                },
            };
            if list.len() == 0 {
                assert(variables@[i as int].1@.len() == 0);
                return false;
            }
            let mut j: usize = 0;
            while j < list.len()
                invariant
                    j <= list@.len(),
                    i < variables@.len(),
                    *list == variables@[i as int].1,
                    forall|k: int|
                        0 <= k < j ==> types@.contains_key((#[trigger] list@[k]).typeref),
                decreases list@.len() - j,
            {
                if !types.contains_key(&list[j].typeref) {
                    assert(!types@.contains_key(variables@[i as int].1@[j as int].typeref));
                    return false;
                }
                j += 1;
            }
            i += 1;
        }
        true
    }

    /// The data made of these parts, where every definition among
    /// `variables` has a type in `types` and every variable a definition;
    /// `None` where one has not.
    pub fn new(
        variables: NameMap<Vec<VarInfo>>,
        types: HashMap<usize, TypeInfo>,
        typenames: NameMap<usize>,
        demangled_names: NameMap<String>,
        unit_names: Vec<Option<String>>,
        sections: NameMap<(u64, u64)>,
    ) -> (r: Option<Self>)
        ensures
            r is Some <==> typerefs_resolve(variables@, types@) && all_defined(variables@),
            match r {
                Some(d) => {
                    &&& d.spec_variables() == variables@
                    &&& d.spec_types() == types@
                    &&& d.spec_typenames() == typenames@
                    &&& d.spec_demangled_names() == demangled_names@
                    &&& d.spec_unit_names() == unit_names@
                    &&& d.spec_sections() == sections@
                },
                None => true,
            },
    {
        if Self::is_consistent(&variables, &types) {
            Some(DebugData { variables, types, typenames, demangled_names, unit_names, sections })
        } else {
            None
        }
    }

    /// The variables; every definition among them has a type in the type
    /// map, and every variable has a definition.
    pub fn variables(&self) -> (r: &NameMap<Vec<VarInfo>>)
        ensures
            r@ == self.spec_variables(),
            typerefs_resolve(self.spec_variables(), self.spec_types()),
            all_defined(self.spec_variables()),
    {
        proof {
            use_type_invariant(self);
        }
        &self.variables
    }

    /// The type map.
    pub fn types(&self) -> (r: &HashMap<usize, TypeInfo>)
        ensures
            r@ == self.spec_types(),
    {
        &self.types
    }

    /// The key of a type of each name.
    pub fn typenames(&self) -> (r: &NameMap<usize>)
        ensures
            r@ == self.spec_typenames(),
    {
        &self.typenames
    }

    /// The mangled name behind each demangled name.
    pub fn demangled_names(&self) -> (r: &NameMap<String>)
        ensures
            r@ == self.spec_demangled_names(),
    {
        &self.demangled_names
    }

    /// The display name of each compile unit.
    pub fn unit_names(&self) -> (r: &Vec<Option<String>>)
        ensures
            r@ == self.spec_unit_names(),
    {
        &self.unit_names
    }

    /// The address range of each section.
    pub fn sections(&self) -> (r: &NameMap<(u64, u64)>)
        ensures
            r@ == self.spec_sections(),
    {
        &self.sections
    }
}

} // verus!
