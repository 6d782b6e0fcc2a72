//! The way back: from a distance in bytes into a symbol to the component of
//! the symbol that begins there.

use crate::symbol::{lemma_wrapping_add, wrap, SymbolError, SymbolErrorView, SymbolInfo};
use crate::text::{chars_of, decimal, push_decimal, string_from_chars};
use crate::types::{DbgDataType, DebugData, Members, TypeInfo};
use vstd::prelude::*;
use vstd::string::StringExecFns;

verus! {

/// What the name of a member adds to the name of the value that holds it.
pub open spec fn member_suffix(name: Seq<char>) -> Seq<char> {
    seq!['.'] + name
}

/// The number of elements that the first `k` dimensions of `dim` span.
pub open spec fn extent_product(dim: Seq<u64>, k: int) -> int
    decreases k,
{
    if k <= 0 || k > dim.len() {
        1
    } else {
        extent_product(dim, k - 1) * dim[k - 1]
    }
}

/// What the indices of an element add to the name of its array: for the
/// element with the row-major index `p` among the first `k` dimensions of
/// `dim`, the index in each of these dimensions, written `._N_`.
pub open spec fn index_suffix(dim: Seq<u64>, k: int, p: int) -> Seq<char>
    decreases k,
{
    if k <= 0 || k > dim.len() || dim[k - 1] == 0 {
        Seq::<char>::empty()
    } else {
        index_suffix(dim, k - 1, p / (dim[k - 1] as int)) + seq!['.', '_'] + decimal(
            (p % (dim[k - 1] as int)) as nat,
        ) + seq!['_']
    }
}

/// `found` with `prefix` before its name.
pub open spec fn under(prefix: Seq<char>, found: Option<(Seq<char>, TypeInfo)>) -> Option<
    (Seq<char>, TypeInfo),
> {
    match found {
        Some((suffix, t)) => Some((prefix + suffix, t)),
        None => None,
    }
}

/// The first component of a value of type `ty` that begins `target` bytes
/// into the value, in depth-first order: what it adds to the name of the
/// value, and its type. The components of a struct or a union are its
/// members in their order, each followed by its own components; those of a
/// class are its bases and then its members; those of an array are its
/// elements in row-major order, each followed by its own components; no
/// other type has components. A member whose type is a reference stands for
/// the type referred to, and `fuel` says how many such references may be
/// followed one inside the other.
pub open spec fn spec_component_at(
    ty: TypeInfo,
    types: Map<usize, TypeInfo>,
    target: int,
    fuel: nat,
) -> Option<(Seq<char>, TypeInfo)>
    decreases fuel, ty, 1nat, 0nat,
{
    match ty.datatype {
        DbgDataType::Struct { members, .. } => member_at(members, 0, types, target, fuel),
        DbgDataType::Union { members, .. } => member_at(members, 0, types, target, fuel),
        DbgDataType::Class { inheritance, members, .. } => match member_at(
            inheritance,
            0,
            types,
            target,
            fuel,
        ) {
            Some(found) => Some(found),
            None => member_at(members, 0, types, target, fuel),
        },
        DbgDataType::Array { dim, stride, arraytype, .. } => element_at(
            ty,
            0,
            types,
            target,
            fuel,
        ),
        _ => None,
    }
}

/// The first component that begins `target` bytes into a value with the
/// members `members`, among the members from `i` on and their components.
pub open spec fn member_at(
    members: Members,
    i: int,
    types: Map<usize, TypeInfo>,
    target: int,
    fuel: nat,
) -> Option<(Seq<char>, TypeInfo)>
    decreases fuel, members, members@.len() - i, 0nat,
{
    if i < 0 || i >= members@.len() {
        None
    } else {
        let name = members@[i].0;
        let member = members@[i].1.0;
        let offset = members@[i].1.1;
        if offset == target {
            Some((member_suffix(name), member.spec_reference(types)))
        } else {
            let inside = match member.datatype {
                DbgDataType::TypeRef(key, _) => if types.contains_key(key) && fuel > 0 {
                    spec_component_at(types[key], types, target - offset, (fuel - 1) as nat)
                } else {
                    None
                },
                _ => {
                    proof {
                        members.lemma_value_decreases(i);
                    }
                    spec_component_at(member, types, target - offset, fuel)
                },
            };
            match inside {
                Some(found) => under(member_suffix(name), Some(found)),
                None => member_at(members, i + 1, types, target, fuel),
            }
        }
    }
}

/// The first component that begins `target` bytes into an array of type
/// `array`, among the elements from the one with the row-major index `p` on
/// and their components.
pub open spec fn element_at(
    array: TypeInfo,
    p: int,
    types: Map<usize, TypeInfo>,
    target: int,
    fuel: nat,
) -> Option<(Seq<char>, TypeInfo)>
    decreases fuel, array, 0nat, extent_product(
        array.datatype->Array_dim@,
        array.datatype->Array_dim@.len() as int,
    ) - p,
{
    match array.datatype {
        DbgDataType::Array { dim, stride, arraytype, .. } => {
            if p < 0 || p >= extent_product(dim@, dim@.len() as int) {
                None
            } else if p * stride == target {
                Some((index_suffix(dim@, dim@.len() as int, p), *arraytype))
            } else {
                match spec_component_at(*arraytype, types, target - p * stride, fuel) {
                    Some(found) => under(index_suffix(dim@, dim@.len() as int, p), Some(found)),
                    None => element_at(array, p + 1, types, target, fuel),
                }
            }
        },
        _ => None,
    }
}

/// No component begins before the value.
pub proof fn lemma_nothing_before(
    ty: TypeInfo,
    types: Map<usize, TypeInfo>,
    target: int,
    fuel: nat,
)
    requires
        target < 0,
    ensures
        spec_component_at(ty, types, target, fuel) is None,
    decreases fuel, ty, 1nat, 0nat,
{
    match ty.datatype {
        DbgDataType::Struct { members, .. } => lemma_no_member_before(
            members,
            0,
            types,
            target,
            fuel,
        ),
        DbgDataType::Union { members, .. } => lemma_no_member_before(
            members,
            0,
            types,
            target,
            fuel,
        ),
        DbgDataType::Class { inheritance, members, .. } => {
            lemma_no_member_before(inheritance, 0, types, target, fuel);
            lemma_no_member_before(members, 0, types, target, fuel);
        },
        DbgDataType::Array { .. } => lemma_no_element_before(ty, 0, types, target, fuel),
        _ => {},
    }
}

/// No member, and no component of a member, begins before the value.
pub proof fn lemma_no_member_before(
    members: Members,
    i: int,
    types: Map<usize, TypeInfo>,
    target: int,
    fuel: nat,
)
    requires
        target < 0,
    ensures
        member_at(members, i, types, target, fuel) is None,
    decreases fuel, members, members@.len() - i, 0nat,
{
    if 0 <= i < members@.len() {
        let member = members@[i].1.0;
        let offset = members@[i].1.1;
        match member.datatype {
            DbgDataType::TypeRef(key, _) => {
                if types.contains_key(key) && fuel > 0 {
                    lemma_nothing_before(types[key], types, target - offset, (fuel - 1) as nat);
                }
            },
            _ => {
                members.lemma_value_decreases(i);
                lemma_nothing_before(member, types, target - offset, fuel);
            },
        }
        lemma_no_member_before(members, i + 1, types, target, fuel);
    }
}

/// No element, and no component of an element, begins before the array.
pub proof fn lemma_no_element_before(
    array: TypeInfo,
    p: int,
    types: Map<usize, TypeInfo>,
    target: int,
    fuel: nat,
)
    requires
        target < 0,
    ensures
        element_at(array, p, types, target, fuel) is None,
    decreases fuel, array, 0nat, extent_product(
        array.datatype->Array_dim@,
        array.datatype->Array_dim@.len() as int,
    ) - p,
{
    match array.datatype {
        DbgDataType::Array { dim, stride, arraytype, .. } => {
            if 0 <= p < extent_product(dim@, dim@.len() as int) {
                assert(p * stride >= 0) by (nonlinear_arith)
                    requires
                        p >= 0,
                        stride >= 0,
                ;
                lemma_nothing_before(*arraytype, types, target - p * stride, fuel);
                lemma_no_element_before(array, p + 1, types, target, fuel);
            }
        },
        _ => {},
    }
}

/// The elements that begin behind the target hold nothing that begins at
/// it.
pub proof fn lemma_no_element_beyond(
    array: TypeInfo,
    p: int,
    types: Map<usize, TypeInfo>,
    target: int,
    fuel: nat,
)
    requires
        array.datatype is Array,
        array.datatype->Array_stride > 0,
        p >= 0,
        p * array.datatype->Array_stride > target,
    ensures
        element_at(array, p, types, target, fuel) is None,
    decreases extent_product(
        array.datatype->Array_dim@,
        array.datatype->Array_dim@.len() as int,
    ) - p,
{
    match array.datatype {
        DbgDataType::Array { dim, stride, arraytype, .. } => {
            if p < extent_product(dim@, dim@.len() as int) {
                lemma_nothing_before(*arraytype, types, target - p * stride, fuel);
                assert((p + 1) * stride > target) by (nonlinear_arith)
                    requires
                        p * stride > target,
                        stride > 0,
                ;
                lemma_no_element_beyond(array, p + 1, types, target, fuel);
            }
        },
        _ => {},
    }
}

/// Where all elements begin at the start of the array and the first holds
/// nothing that begins at the target, none does.
pub proof fn lemma_elements_alike(
    array: TypeInfo,
    p: int,
    types: Map<usize, TypeInfo>,
    target: int,
    fuel: nat,
)
    requires
        array.datatype is Array,
        array.datatype->Array_stride == 0,
        target != 0,
        p >= 0,
        spec_component_at(*array.datatype->Array_arraytype, types, target, fuel) is None,
    ensures
        element_at(array, p, types, target, fuel) is None,
    decreases extent_product(
        array.datatype->Array_dim@,
        array.datatype->Array_dim@.len() as int,
    ) - p,
{
    match array.datatype {
        DbgDataType::Array { dim, stride, arraytype, .. } => {
            if p < extent_product(dim@, dim@.len() as int) {
                assert(p * stride == 0) by (nonlinear_arith)
                    requires
                        stride == 0,
                ;
                lemma_elements_alike(array, p + 1, types, target, fuel);
            }
        },
        _ => {},
    }
}

/// Whether `r` is the component that `expected` names.
pub open spec fn found_is(
    r: Option<(Vec<char>, &TypeInfo)>,
    expected: Option<(Seq<char>, TypeInfo)>,
) -> bool {
    match (r, expected) {
        (Some((suffix, t)), Some((name, ty))) => suffix@ == name && *t == ty,
        (None, None) => true,
        _ => false,
    }
}

/// `a` followed by `b`.
fn followed_by(a: Vec<char>, b: &Vec<char>) -> (r: Vec<char>)
    ensures
        r@ == a@ + b@,
{
    let mut out = a;
    let mut i: usize = 0;
    assert(out@ =~= a@ + b@.take(0));
    while i < b.len()
        invariant
            i <= b@.len(),
            out@ == a@ + b@.take(i as int),
        decreases b@.len() - i,
    {
        out.push(b[i]);
        i += 1;
        assert(out@ =~= a@ + b@.take(i as int));
    }
    assert(b@.take(i as int) =~= b@);
    out
}

/// What the name of a member adds to the name of the value that holds it.
fn member_name(name: &String) -> (r: Vec<char>)
    ensures
        r@ == member_suffix(name@),
{
    let mut out: Vec<char> = Vec::new();
    out.push('.');
    let r = followed_by(out, &chars_of(name.as_str()));
    assert(r@ =~= member_suffix(name@));
    r
}

/// Appends to `out` what the indices of the element `p` add to the name of
/// its array.
fn push_index_suffix(dim: &Vec<u64>, k: usize, p: u64, out: &mut Vec<char>)
    requires
        k <= dim@.len(),
    ensures
        final(out)@ == old(out)@ + index_suffix(dim@, k as int, p as int),
    decreases k,
{
    if k == 0 || dim[k - 1] == 0 {
        assert(out@ =~= old(out)@ + index_suffix(dim@, k as int, p as int));
        return ;
    }
    let extent = dim[k - 1];
    push_index_suffix(dim, k - 1, p / extent, out);
    out.push('.');
    out.push('_');
    push_decimal(out, p % extent);
    out.push('_');
    assert(out@ =~= old(out)@ + index_suffix(dim@, k as int, p as int));
}

/// What the indices of the element `p` add to the name of its array.
fn index_name(dim: &Vec<u64>, p: u64) -> (r: Vec<char>)
    ensures
        r@ == index_suffix(dim@, dim@.len() as int, p as int),
{
    let mut out: Vec<char> = Vec::new();
    push_index_suffix(dim, dim.len(), p, &mut out);
    assert(out@ =~= index_suffix(dim@, dim@.len() as int, p as int));
    out
}

/// The number of elements of an array of the extents `dim`, as far as 128
/// bits hold it.
pub(crate) fn element_count(dim: &Vec<u64>) -> (r: u128)
    ensures
        extent_product(dim@, dim@.len() as int) <= u128::MAX ==> r == extent_product(
            dim@,
            dim@.len() as int,
        ),
        extent_product(dim@, dim@.len() as int) > u128::MAX ==> r == u128::MAX,
{
    let mut i: usize = 0;
    while i < dim.len()
        invariant
            i <= dim@.len(),
            forall|j: int| 0 <= j < i ==> dim@[j] != 0,
        decreases dim@.len() - i,
    {
        if dim[i] == 0 {
            proof {
                lemma_product_zero(dim@, i as int, dim@.len() as int);
            }
            return 0;
        }
        i += 1;
    }
    let mut count: u128 = 1;
    let mut k: usize = 0;
    while k < dim.len()
        invariant
            k <= dim@.len(),
            forall|j: int| 0 <= j < dim@.len() ==> dim@[j] != 0,
            extent_product(dim@, k as int) >= 1,
            extent_product(dim@, k as int) <= u128::MAX ==> count == extent_product(
                dim@,
                k as int,
            ),
            extent_product(dim@, k as int) > u128::MAX ==> count == u128::MAX,
        decreases dim@.len() - k,
    {
        let ghost before = extent_product(dim@, k as int);
        let extent = dim[k];
        proof {
            assert(before * extent >= before) by (nonlinear_arith)
                requires
                    before >= 1,
                    extent >= 1,
            ;
        }
        count = match count.checked_mul(extent as u128) {
            Some(c) => c,
            None => u128::MAX,
        };
        k += 1;
    }
    count
}

/// An array with a dimension of no extent has no elements.
pub proof fn lemma_product_zero(dim: Seq<u64>, i: int, k: int)
    requires
        0 <= i < k <= dim.len(),
        dim[i] == 0,
    ensures
        extent_product(dim, k) == 0,
    decreases k,
{
    if i < k - 1 {
        lemma_product_zero(dim, i, k - 1);
        assert(0 * dim[k - 1] == 0);
    } else {
        assert(extent_product(dim, k - 1) * 0 == 0) by (nonlinear_arith);
    }
}

/// The first component of a value of type `ty` that begins `target` bytes
/// into the value.
fn component_at<'a>(ty: &'a TypeInfo, debug_data: &'a DebugData, target: u64, fuel: usize) -> (r:
    Option<(Vec<char>, &'a TypeInfo)>)
    ensures
        found_is(r, spec_component_at(*ty, debug_data.spec_types(), target as int, fuel as nat)),
    decreases fuel, *ty, 1nat, 0nat,
{
    match &ty.datatype {
        DbgDataType::Struct { members, .. } => member_search(members, debug_data, target, fuel),
        DbgDataType::Union { members, .. } => member_search(members, debug_data, target, fuel),
        DbgDataType::Class { inheritance, members, .. } => match member_search(
            inheritance,
            debug_data,
            target,
            fuel,
        ) {
            Some(found) => Some(found),
            None => member_search(members, debug_data, target, fuel),
        },
        DbgDataType::Array { .. } => element_search(ty, debug_data, target, fuel),
        _ => None,
    }
}

/// The first component that begins `target` bytes into a value with the
/// members `members`.
fn member_search<'a>(
    members: &'a Members,
    debug_data: &'a DebugData,
    target: u64,
    fuel: usize,
) -> (r: Option<(Vec<char>, &'a TypeInfo)>)
    ensures
        found_is(r, member_at(*members, 0, debug_data.spec_types(), target as int, fuel as nat)),
    decreases fuel, *members, members@.len(), 0nat,
{
    broadcast use vstd::std_specs::hash::group_hash_axioms;

    let ghost types = debug_data.spec_types();
    let mut i: usize = 0;
    while i < members.len()
        invariant
            i <= members@.len(),
            types == debug_data.spec_types(),
            member_at(*members, i as int, types, target as int, fuel as nat) == member_at(
                *members,
                0,
                types,
                target as int,
                fuel as nat,
            ),
        decreases members@.len() - i,
    {
        let (name, member) = match members.get_index(i) {
            Some(entry) => entry,
            None => {
                return None;
            },
        };
        let offset = member.1;
        if offset == target {
            return Some((member_name(name), member.0.get_reference(debug_data.types())));
        }
        if offset < target {
            let inside = match &member.0.datatype {
                DbgDataType::TypeRef(key, _) => match debug_data.types().get(key) {
                    Some(referred) => if fuel > 0 {
                        component_at(referred, debug_data, target - offset, fuel - 1)
                    } else {
                        None
                    },
                    None => None,
                },
                _ => {
                    proof {
                        members.lemma_value_decreases(i as int);
                    }
                    component_at(&member.0, debug_data, target - offset, fuel)
                },
            };
            if let Some((suffix, found)) = inside {
                return Some((followed_by(member_name(name), &suffix), found));
            }
        } else {
            proof {
                match member.0.datatype {
                    DbgDataType::TypeRef(key, _) => {
                        if types.contains_key(key) && fuel > 0 {
                            lemma_nothing_before(
                                types[key],
                                types,
                                target - offset,
                                (fuel - 1) as nat,
                            );
                        }
                    },
                    _ => {
                        lemma_nothing_before(member.0, types, target - offset, fuel as nat);
                    },
                }
            }
        }
        i += 1;
    }
    None
}

/// The first component that begins `target` bytes into an array of type
/// `array`.
fn element_search<'a>(
    array: &'a TypeInfo,
    debug_data: &'a DebugData,
    target: u64,
    fuel: usize,
) -> (r: Option<(Vec<char>, &'a TypeInfo)>)
    requires
        array.datatype is Array,
    ensures
        found_is(r, element_at(*array, 0, debug_data.spec_types(), target as int, fuel as nat)),
    decreases fuel, *array, 0nat, 0nat,
{
    let ghost types = debug_data.spec_types();
    match &array.datatype {
        DbgDataType::Array { dim, stride, arraytype, .. } => {
            let count = element_count(dim);
            if count == 0 {
                return None;
            }
            if *stride == 0 {
                assert(0 * *stride == 0);
                if target == 0 {
                    return Some((index_name(dim, 0), &**arraytype));
                }
                return match component_at(&**arraytype, debug_data, target, fuel) {
                    Some((suffix, found)) => Some((followed_by(index_name(dim, 0), &suffix), found)),
                    None => {
                        proof {
                            lemma_elements_alike(*array, 0, types, target as int, fuel as nat);
                        }
                        None
                    },
                };
            }
            let last = target / *stride;
            let mut p: u64 = 0;
            while p <= last && (p as u128) < count
                invariant
                    array.datatype == (DbgDataType::Array {
                        size: array.datatype->Array_size,
                        dim: *dim,
                        stride: *stride,
                        arraytype: *arraytype,
                    }),
                    *stride > 0,
                    last == target / *stride,
                    types == debug_data.spec_types(),
                    extent_product(dim@, dim@.len() as int) <= u128::MAX ==> count
                        == extent_product(dim@, dim@.len() as int),
                    extent_product(dim@, dim@.len() as int) > u128::MAX ==> count == u128::MAX,
                    element_at(*array, p as int, types, target as int, fuel as nat) == element_at(
                        *array,
                        0,
                        types,
                        target as int,
                        fuel as nat,
                    ),
                decreases last + 1 - p,
            {
                assert(p * *stride <= target) by (nonlinear_arith)
                    requires
                        p <= target / *stride,
                        *stride > 0,
                ;
                let offset = p * *stride;
                if offset == target {
                    return Some((index_name(dim, p), &**arraytype));
                }
                if let Some((suffix, found)) = component_at(
                    &**arraytype,
                    debug_data,
                    target - offset,
                    fuel,
                ) {
                    return Some((followed_by(index_name(dim, p), &suffix), found));
                }
                assert(p < u64::MAX) by (nonlinear_arith)
                    requires
                        p * *stride < target,
                        *stride > 0,
                ;
                p += 1;
            }
            proof {
                if p > last {
                    assert(p * *stride > target) by (nonlinear_arith)
                        requires
                            p > target / *stride,
                            *stride > 0,
                    ;
                    lemma_no_element_beyond(*array, p as int, types, target as int, fuel as nat);
                }
            }
            None
        },
        _ => None,
    }
}

/// The component of `base` that begins `offset` bytes into it, where
/// `offset` is no larger than the type of `base` and a component begins
/// there.
pub open spec fn spec_find_symbol_by_offset(
    base: SymbolInfo,
    offset: u64,
    debug_data: &DebugData,
) -> Result<(Seq<char>, u64, TypeInfo), SymbolErrorView> {
    if offset > base.typeinfo.spec_size() {
        Err(SymbolErrorView::OffsetOutOfBounds { offset, name: base.name@ })
    } else {
        match spec_component_at(
            *base.typeinfo,
            debug_data.spec_types(),
            offset as int,
            debug_data.spec_types().len(),
        ) {
            Some((suffix, typeinfo)) => Ok(
                (base.name@ + suffix, wrap(base.address + offset), typeinfo),
            ),
            None => Err(SymbolErrorView::NoComponentAtOffset { offset, name: base.name@ }),
        }
    }
}

/// Whether `r` is the component of `base` that begins `offset` bytes into
/// it, or the error that is due: the symbol has the name, the address and
/// the type that are due, and all else as `base` has it.
pub open spec fn is_component(
    r: Result<SymbolInfo, SymbolError>,
    base: SymbolInfo,
    offset: u64,
    debug_data: &DebugData,
) -> bool {
    match (r, spec_find_symbol_by_offset(base, offset, debug_data)) {
        (Ok(symbol), Ok((name, address, typeinfo))) => {
            &&& symbol.name@ == name
            &&& symbol.address == address
            &&& *symbol.typeinfo == typeinfo
            &&& symbol.unit_idx == base.unit_idx
            &&& symbol.function_name == base.function_name
            &&& symbol.namespaces == base.namespaces
            &&& symbol.is_unique == base.is_unique
        },
        (Err(e), Err(expected)) => e@ == expected,
        _ => false,
    }
}

/// Finds the component of `base_symbol` that begins `offset` bytes into it:
/// a member of a struct or an element of an array, at any depth. Of several
/// components that begin there, the outermost and first is returned, under
/// its full name. A reference from a member to its type is followed only as
/// often, one inside the other, as the type map has types.
pub fn find_symbol_by_offset<'a>(
    base_symbol: &SymbolInfo<'a>,
    offset: u64,
    debug_data: &'a DebugData,
) -> (r: Result<SymbolInfo<'a>, SymbolError>)
    ensures
        is_component(r, *base_symbol, offset, debug_data),
{
    if offset > base_symbol.typeinfo.get_size() {
        return Err(SymbolError::OffsetOutOfBounds { offset, name: base_symbol.name.clone() });
    }
    let fuel = debug_data.types().len();
    match component_at(base_symbol.typeinfo, debug_data, offset, fuel) {
        Some((suffix, typeinfo)) => {
            let mut name = base_symbol.name.clone();
            name.append(string_from_chars(suffix.as_slice()).as_str());
            proof {
                lemma_wrapping_add(base_symbol.address, offset);
            }
            Ok(
                SymbolInfo {
                    name,
                    address: base_symbol.address.wrapping_add(offset),
                    typeinfo,
                    unit_idx: base_symbol.unit_idx,
                    function_name: base_symbol.function_name,
                    namespaces: base_symbol.namespaces,
                    is_unique: base_symbol.is_unique,
                },
            )
        },
        None => Err(
            SymbolError::NoComponentAtOffset { offset, name: base_symbol.name.clone() },
        ),
    }
}

} // verus!
