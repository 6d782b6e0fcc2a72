//! The tree of debug-information entries, as plain values.

use vstd::prelude::*;

verus! {

/// The kind of a debug-information entry.
#[derive(Clone, Copy, Debug, PartialEq, Eq, Structural)]
pub enum EntryTag {
    CompileUnit,
    PartialUnit,
    Namespace,
    Subprogram,
    Variable,
    ClassType,
    StructureType,
    UnionType,
    ArrayType,
    SubrangeType,
    EnumerationType,
    Enumerator,
    BaseType,
    PointerType,
    ReferenceType,
    Typedef,
    ConstType,
    VolatileType,
    Member,
    Inheritance,
    SubroutineType,
    Other,
}

/// How the bits of a base type are read.
#[derive(Clone, Copy, Debug, PartialEq, Eq, Structural)]
pub enum BaseEncoding {
    Address,
    Boolean,
    Float,
    Signed,
    SignedChar,
    Unsigned,
    UnsignedChar,
    Other,
}

/// One entry of the tree, with the attributes that were read from it. An
/// attribute that is absent, or that could not be read, is `None`.
#[derive(Clone, Debug)]
pub struct DebugEntry {
    /// The offset of the entry in the debug information.
    pub offset: usize,
    /// The depth of the entry in the tree, less the depth of the entry before
    /// it in depth-first order.
    pub depth_delta: isize,
    pub tag: EntryTag,
    pub name: Option<String>,
    /// The offset of the entry that describes the type.
    pub typeref: Option<usize>,
    /// The address that the location attribute gives.
    pub location: Option<u64>,
    pub declaration: Option<bool>,
    /// The position, among the entries of the same unit, of the entry that
    /// the specification attribute points to.
    pub specification: Option<usize>,
    /// The position, among the entries of the same unit, of the entry that
    /// the abstract-origin attribute points to.
    pub abstract_origin: Option<usize>,
    /// The size in bytes of a value of the type.
    pub byte_size: Option<u64>,
    pub encoding: Option<BaseEncoding>,
    /// The distance in bytes of a member, or of a base, from the start of
    /// the value that holds it.
    pub member_location: Option<u64>,
    /// The number of bits of a bitfield.
    pub bit_size: Option<u64>,
    /// The distance in bits of a bitfield from the highest bit of its
    /// storage unit.
    pub bit_offset: Option<u64>,
    /// The distance in bits of a bitfield from the start of the value that
    /// holds it.
    pub data_bit_offset: Option<u64>,
    /// The lowest index of a dimension.
    pub lower_bound: Option<u64>,
    /// The highest index of a dimension.
    pub upper_bound: Option<u64>,
    /// The number of elements of a dimension.
    pub count: Option<u64>,
    /// The value of an enumerator.
    pub const_value: Option<i64>,
}

impl DebugEntry {
    /// An entry without attributes.
    pub fn new(offset: usize, depth_delta: isize, tag: EntryTag) -> (r: Self)
        ensures
            r == (DebugEntry {
                offset,
                depth_delta,
                tag,
                name: None,
                typeref: None,
                location: None,
                declaration: None,
                specification: None,
                abstract_origin: None,
                byte_size: None,
                encoding: None,
                member_location: None,
                bit_size: None,
                bit_offset: None,
                data_bit_offset: None,
                lower_bound: None,
                upper_bound: None,
                count: None,
                const_value: None,
            }),
    {
        DebugEntry {
            offset,
            depth_delta,
            tag,
            name: None,
            typeref: None,
            location: None,
            declaration: None,
            specification: None,
            abstract_origin: None,
            byte_size: None,
            encoding: None,
            member_location: None,
            bit_size: None,
            bit_offset: None,
            data_bit_offset: None,
            lower_bound: None,
            upper_bound: None,
            count: None,
            const_value: None,
        }
    }
}

/// The entries of one compile unit in depth-first order, the root of the
/// unit first, and the range of offsets that the unit takes up.
#[derive(Clone, Debug)]
pub struct CompileUnit {
    /// The offset at which the unit begins.
    pub offset: usize,
    /// The length of the unit in bytes, its header included.
    pub length: usize,
    /// The size in bytes of an address in the unit.
    pub address_size: u8,
    pub entries: Vec<DebugEntry>,
}

/// The characters of a string that may be absent.
pub open spec fn opt_text(o: Option<String>) -> Option<Seq<char>> {
    match o {
        Some(s) => Some(s@),
        None => None,
    }
}

/// A copy of a string that may be absent.
pub fn clone_opt(o: &Option<String>) -> (r: Option<String>)
    ensures
        opt_text(r) == opt_text(*o),
{
    match o {
        Some(s) => Some(s.clone()),
        None => None,
    }
}

/// Whether the unit at `i` holds the offset `itemoffset` behind its first
/// byte.
pub open spec fn unit_holds(units: Seq<CompileUnit>, i: int, itemoffset: usize) -> bool {
    units[i].offset < itemoffset && units[i].offset + units[i].length > itemoffset
}

/// The first unit that holds `itemoffset`, looking from `from` on.
pub open spec fn spec_get_unit_from(units: Seq<CompileUnit>, itemoffset: usize, from: int) -> Option<
    usize,
>
    decreases units.len() - from,
{
    if from < 0 || from >= units.len() {
        None
    } else if unit_holds(units, from, itemoffset) {
        Some(from as usize)
    } else {
        spec_get_unit_from(units, itemoffset, from + 1)
    }
}

/// The position of the first unit that holds `itemoffset`.
pub fn get_unit(units: &Vec<CompileUnit>, itemoffset: usize) -> (r: Option<usize>)
    ensures
        r == spec_get_unit_from(units@, itemoffset, 0),
{
    let mut idx: usize = 0;
    while idx < units.len()
        invariant
            idx <= units@.len(),
            spec_get_unit_from(units@, itemoffset, idx as int) == spec_get_unit_from(
                units@,
                itemoffset,
                0,
            ),
        decreases units@.len() - idx,
    {
        let unitoffset = units[idx].offset;
        if unitoffset < itemoffset && units[idx].length > itemoffset - unitoffset {
            return Some(idx);
        }
        idx += 1;
    }
    None
}

/// The position of the first entry at or after `from` that stands at
/// `offset`.
pub open spec fn entry_position(entries: Seq<DebugEntry>, offset: usize, from: int) -> Option<int>
    decreases entries.len() - from,
{
    if from < 0 || from >= entries.len() {
        None
    } else if entries[from].offset == offset {
        Some(from)
    } else {
        entry_position(entries, offset, from + 1)
    }
}

/// Where the entry at `offset` stands: the unit that holds the offset, and
/// the position in it of the first entry at that offset.
pub open spec fn locate(units: Seq<CompileUnit>, offset: usize) -> Option<(int, int)> {
    match spec_get_unit_from(units, offset, 0) {
        Some(u) => match entry_position(units[u as int].entries@, offset, 0) {
            Some(i) => Some((u as int, i)),
            None => None,
        },
        None => None,
    }
}

/// The positions of the children of an entry among the entries from `j`
/// on, where the entry before `j` stands `rel` levels below that entry.
pub open spec fn children_from(entries: Seq<DebugEntry>, j: int, rel: int) -> Seq<int>
    decreases entries.len() - j,
{
    if j < 0 || j >= entries.len() {
        Seq::<int>::empty()
    } else {
        let level = rel + entries[j].depth_delta;
        if level <= 0 {
            Seq::<int>::empty()
        } else if level == 1 {
            seq![j] + children_from(entries, j + 1, level)
        } else {
            children_from(entries, j + 1, level)
        }
    }
}

/// The positions of the children of the entry at `i`, in their order.
pub open spec fn children(entries: Seq<DebugEntry>, i: int) -> Seq<int> {
    children_from(entries, i + 1, 0)
}

/// `get_unit_from` finds a unit of the list.
pub proof fn lemma_get_unit_in_range(units: Seq<CompileUnit>, itemoffset: usize, from: int)
    requires
        0 <= from,
        units.len() <= usize::MAX,
    ensures
        match spec_get_unit_from(units, itemoffset, from) {
            Some(u) => from <= u < units.len(),
            None => true,
        },
    decreases units.len() - from,
{
    if from < units.len() && !unit_holds(units, from, itemoffset) {
        lemma_get_unit_in_range(units, itemoffset, from + 1);
    }
}

/// `entry_position` finds an entry at the offset.
pub proof fn lemma_entry_position(entries: Seq<DebugEntry>, offset: usize, from: int)
    requires
        0 <= from,
    ensures
        match entry_position(entries, offset, from) {
            Some(i) => from <= i < entries.len() && entries[i].offset == offset,
            None => forall|j: int| from <= j < entries.len() ==> (#[trigger] entries[j]).offset
                != offset,
        },
    decreases entries.len() - from,
{
    if from < entries.len() && entries[from].offset != offset {
        lemma_entry_position(entries, offset, from + 1);
    }
}

/// The positions of the children of the entry at `i`.
pub fn children_of(entries: &Vec<DebugEntry>, i: usize) -> (r: Vec<usize>)
    requires
        i < entries@.len(),
    ensures
        r@.len() == children(entries@, i as int).len(),
        forall|k: int| 0 <= k < r@.len() ==> r@[k] == children(entries@, i as int)[k],
        forall|k: int| 0 <= k < r@.len() ==> (#[trigger] r@[k]) < entries@.len(),
{
    let ghost all = children(entries@, i as int);
    let mut out: Vec<usize> = Vec::new();
    let mut level: i128 = 0;
    let n = entries.len();
    let mut j: usize = i + 1;
    while j < n
        invariant
            i < j <= entries@.len() == n,
            all == children(entries@, i as int),
            -(j - i - 1) * 0x8000_0000_0000_0000 <= level <= (j - i - 1) * 0x8000_0000_0000_0000,
            forall|k: int| 0 <= k < out@.len() ==> (#[trigger] out@[k]) < entries@.len(),
            Seq::new(out@.len(), |k: int| out@[k] as int) + children_from(
                entries@,
                j as int,
                level as int,
            ) == all,
        decreases entries@.len() - j,
    {
        let ghost before = Seq::new(out@.len(), |k: int| out@[k] as int);
        level = level + entries[j].depth_delta as i128;
        if level <= 0 {
            assert(before + Seq::<int>::empty() =~= before);
            assert(before =~= all);
            return out;
        }
        if level == 1 {
            out.push(j);
            assert(Seq::new(out@.len(), |k: int| out@[k] as int) =~= before + seq![j as int]);
            assert(Seq::new(out@.len(), |k: int| out@[k] as int) + children_from(
                entries@,
                j + 1,
                level as int,
            ) =~= all);
        }
        j += 1;
    }
    assert(Seq::new(out@.len(), |k: int| out@[k] as int) + Seq::<int>::empty() =~= Seq::new(
        out@.len(),
        |k: int| out@[k] as int,
    ));
    out
}

} // verus!
