//! What holds of the library as a whole.

use crate::extract::Table;
use crate::offset::is_component;
use crate::pipeline::{kept_definitions, resolved_table};
use crate::symbol::{
    is_resolution, spec_array_index, spec_find_membertype, spec_get_index, SymbolError,
    SymbolErrorView, SymbolInfo,
};
use crate::types::DbgDataType;
use crate::text::{decimal, digit_char, digit_value, digits_value, parse_decimal};
use crate::typereader::{spec_type, type_fuel, type_is, Source};
use crate::types::{DebugData, TypeInfo, VarInfoView};
use crate::views::type_view;
use vstd::prelude::*;

verus! {

/// The decimal numeral of a number is made of digits and stands for the
/// number.
pub proof fn law_decimal_round_trip(n: nat)
    ensures
        parse_decimal(decimal(n)) == Some(n),
    decreases n,
{
    let last = digit_char((n % 10) as int);
    assert(digit_value(last) == Some((n % 10) as int));
    if n < 10 {
        assert(decimal(n) =~= seq![last]);
        assert(decimal(n).drop_last() =~= Seq::<char>::empty());
        assert(digits_value(decimal(n).drop_last()) == 0);
    } else {
        law_decimal_round_trip(n / 10);
        let front = decimal(n / 10);
        assert(decimal(n) =~= front.push(last));
        assert(decimal(n).drop_last() =~= front);
        assert forall|i: int| 0 <= i < decimal(n).len() implies digit_value(
            #[trigger] decimal(n)[i],
        ) is Some by {
            if i < front.len() {
                assert(decimal(n)[i] == front[i]);
            }
        }
    }
}

/// An index in square brackets.
pub open spec fn bracketed(digits: Seq<char>) -> Seq<char> {
    seq!['['] + digits + seq![']']
}

/// An index between underscores.
pub open spec fn underscored(digits: Seq<char>) -> Seq<char> {
    seq!['_'] + digits + seq!['_']
}

/// The two ways to write an index mean the same: whatever stands between
/// the brackets stands for the same index between underscores.
pub proof fn law_index_forms(digits: Seq<char>)
    ensures
        spec_get_index(bracketed(digits)) == spec_get_index(underscored(digits)),
{
    let b = bracketed(digits);
    let u = underscored(digits);
    assert(b.subrange(1, b.len() - 1) =~= digits);
    assert(u.subrange(1, u.len() - 1) =~= digits);
}

/// Every index that `usize` holds can be written in either way.
pub proof fn law_index_of_number(n: usize)
    ensures
        spec_get_index(bracketed(decimal(n as nat))) == Some(n),
        spec_get_index(underscored(decimal(n as nat))) == Some(n),
{
    law_decimal_round_trip(n as nat);
    law_index_forms(decimal(n as nat));
    let b = bracketed(decimal(n as nat));
    assert(b.subrange(1, b.len() - 1) =~= decimal(n as nat));
}

/// Whether two paths say the same of the `count` indices from `idx` on:
/// where one has a component the other has one, and both stand for the same
/// index.
pub open spec fn same_indices(a: Seq<Seq<char>>, b: Seq<Seq<char>>, idx: int, count: int) -> bool {
    forall|k: int|
        0 <= k < count ==> ((idx + k < a.len()) == (idx + k < b.len())) && (idx + k < a.len()
            ==> spec_get_index(#[trigger] a[idx + k]) is Some && spec_get_index(a[idx + k])
            == spec_get_index(b[idx + k]))
}

/// The element of an array that a path selects depends on the indices that
/// its components stand for, and not on how they are written: two paths
/// that say the same of the indices select the same element, or both fail.
pub proof fn law_array_index_by_meaning(
    dim: Seq<u64>,
    a: Seq<Seq<char>>,
    b: Seq<Seq<char>>,
    idx: int,
    k: int,
    acc: int,
)
    requires
        0 <= idx,
        0 <= k,
        same_indices(a, b, idx, dim.len() as int),
    ensures
        match (spec_array_index(dim, a, idx, k, acc), spec_array_index(dim, b, idx, k, acc)) {
            (Ok(x), Ok(y)) => x == y,
            (Err(_), Err(_)) => true,
            _ => false,
        },
    decreases dim.len() - k,
{
    if k < dim.len() {
        if idx + k < a.len() {
            assert(spec_get_index(a[idx + k]) == spec_get_index(b[idx + k]));
            let n = spec_get_index(a[idx + k])->Some_0;
            if n < dim[k] {
                law_array_index_by_meaning(dim, a, b, idx, k + 1, acc * dim[k] + n);
            }
        } else {
            if 0 < dim[k] {
                law_array_index_by_meaning(dim, a, b, idx, k + 1, acc * dim[k] + 0);
            }
        }
    }
}

/// Whether two paths have the same components from `idx` on.
pub open spec fn same_from(a: Seq<Seq<char>>, b: Seq<Seq<char>>, idx: int) -> bool {
    a.len() == b.len() && forall|i: int| idx <= i < a.len() ==> #[trigger] a[i] == b[i]
}

/// Whether two descents reach the same: the same type at the same distance,
/// or nothing both times.
pub open spec fn same_outcome(
    x: Result<(int, TypeInfo), SymbolErrorView>,
    y: Result<(int, TypeInfo), SymbolErrorView>,
) -> bool {
    match (x, y) {
        (Ok(p), Ok(q)) => p == q,
        (Err(_), Err(_)) => true,
        _ => false,
    }
}

/// Where a descent leads depends on the components that it has before it,
/// and not on those behind it.
pub proof fn law_descent_by_rest(
    ty: TypeInfo,
    types: Map<usize, TypeInfo>,
    a: Seq<Seq<char>>,
    b: Seq<Seq<char>>,
    idx: int,
)
    requires
        0 <= idx,
        same_from(a, b, idx),
    ensures
        same_outcome(
            spec_find_membertype(ty, types, a, idx),
            spec_find_membertype(ty, types, b, idx),
        ),
    decreases a.len() - idx, ty,
{
    if idx < a.len() {
        assert(a[idx] == b[idx]);
        match ty.datatype {
            DbgDataType::Class { members, inheritance, .. } => {
                match crate::name_map::lookup(members@, a[idx]) {
                    Some(member) => {
                        law_descent_by_rest(member.0.spec_reference(types), types, a, b, idx + 1);
                    },
                    None => match crate::name_map::lookup(inheritance@, a[idx]) {
                        Some(base) => {
                            if idx + 1 < a.len() {
                                assert(a[idx + 1] == b[idx + 1]);
                            }
                            law_descent_by_rest(
                                base.0.spec_reference(types),
                                types,
                                a,
                                b,
                                idx + 1,
                            );
                        },
                        None => {},
                    },
                }
            },
            DbgDataType::Struct { members, .. } => {
                match crate::name_map::lookup(members@, a[idx]) {
                    Some(member) => {
                        law_descent_by_rest(member.0.spec_reference(types), types, a, b, idx + 1);
                    },
                    None => {},
                }
            },
            DbgDataType::Union { members, .. } => {
                match crate::name_map::lookup(members@, a[idx]) {
                    Some(member) => {
                        law_descent_by_rest(member.0.spec_reference(types), types, a, b, idx + 1);
                    },
                    None => {},
                }
            },
            DbgDataType::Array { dim, stride, arraytype, .. } => {
                law_array_index_by_rest(dim@, a, b, idx, 0, 0);
                if idx + dim@.len() < a.len() {
                    law_descent_by_rest(*arraytype, types, a, b, idx + dim@.len());
                }
            },
            _ => {},
        }
    }
}

/// The element of an array that a path selects depends on the components
/// from the first index on.
pub proof fn law_array_index_by_rest(
    dim: Seq<u64>,
    a: Seq<Seq<char>>,
    b: Seq<Seq<char>>,
    idx: int,
    k: int,
    acc: int,
)
    requires
        0 <= idx,
        0 <= k,
        same_from(a, b, idx),
    ensures
        match (spec_array_index(dim, a, idx, k, acc), spec_array_index(dim, b, idx, k, acc)) {
            (Ok(x), Ok(y)) => x == y,
            (Err(_), Err(_)) => true,
            _ => false,
        },
    decreases dim.len() - k,
{
    if k < dim.len() {
        if idx + k < a.len() {
            assert(a[idx + k] == b[idx + k]);
            match spec_get_index(a[idx + k]) {
                Some(n) => {
                    if n < dim[k] {
                        law_array_index_by_rest(dim, a, b, idx, k + 1, acc * dim[k] + n);
                    }
                },
                None => {},
            }
        } else {
            if 0 < dim[k] {
                law_array_index_by_rest(dim, a, b, idx, k + 1, acc * dim[k] + 0);
            }
        }
    }
}

/// An element of an array is the same however its indices are written: two
/// paths that say the same of the indices, and are alike behind them, lead
/// from the array to the same type at the same distance, or both nowhere.
pub proof fn law_element_by_meaning(
    ty: TypeInfo,
    types: Map<usize, TypeInfo>,
    a: Seq<Seq<char>>,
    b: Seq<Seq<char>>,
    idx: int,
)
    requires
        0 <= idx,
        ty.datatype is Array,
        a.len() == b.len(),
        same_indices(a, b, idx, ty.datatype->Array_dim@.len() as int),
        same_from(a, b, idx + ty.datatype->Array_dim@.len()),
    ensures
        same_outcome(
            spec_find_membertype(ty, types, a, idx),
            spec_find_membertype(ty, types, b, idx),
        ),
{
    match ty.datatype {
        DbgDataType::Array { dim, stride, arraytype, .. } => {
            if idx < a.len() {
                law_array_index_by_meaning(dim@, a, b, idx, 0, 0);
                if idx + dim@.len() < a.len() {
                    law_descent_by_rest(*arraytype, types, a, b, idx + dim@.len());
                }
            }
        },
        _ => {},
    }
}

/// Whether two results of the resolver say the same.
pub open spec fn same_result(
    a: Result<SymbolInfo, SymbolError>,
    b: Result<SymbolInfo, SymbolError>,
) -> bool {
    match (a, b) {
        (Ok(x), Ok(y)) => {
            &&& x.name@ == y.name@
            &&& x.address == y.address
            &&& *x.typeinfo == *y.typeinfo
            &&& x.unit_idx == y.unit_idx
            &&& *x.function_name == *y.function_name
            &&& x.namespaces@ == y.namespaces@
            &&& x.is_unique == y.is_unique
        },
        (Err(x), Err(y)) => x@ == y@,
        _ => false,
    }
}

/// Resolving the same expression against the same data twice gives the same
/// result.
pub proof fn law_resolution_repeats(
    debug_data: &DebugData,
    expr: Seq<char>,
    first: Result<SymbolInfo, SymbolError>,
    second: Result<SymbolInfo, SymbolError>,
)
    requires
        is_resolution(first, debug_data, expr),
        is_resolution(second, debug_data, expr),
    ensures
        same_result(first, second),
{
}

/// Looking up the same offset in the same symbol twice gives the same
/// result.
pub proof fn law_component_repeats(
    debug_data: &DebugData,
    base: SymbolInfo,
    offset: u64,
    first: Result<SymbolInfo, SymbolError>,
    second: Result<SymbolInfo, SymbolError>,
)
    requires
        is_component(first, base, offset, debug_data),
        is_component(second, base, offset, debug_data),
    ensures
        same_result(first, second),
{
}

/// Building the type at the same offset from the same entries twice gives
/// the same type, or fails both times.
pub proof fn law_type_repeats(
    src: Source,
    offset: usize,
    first: Option<TypeInfo>,
    second: Option<TypeInfo>,
)
    requires
        type_is(first, spec_type(src, offset, false, type_fuel(src.units))),
        type_is(second, spec_type(src, offset, false, type_fuel(src.units))),
    ensures
        match (first, second) {
            (Some(a), Some(b)) => type_view(a) == type_view(b),
            (None, None) => true,
            _ => false,
        },
{
}

/// The definitions that are kept have their type among the keys.
pub proof fn law_kept_definitions_resolve(list: Seq<VarInfoView>, keys: Set<usize>, n: int)
    ensures
        forall|j: int|
            0 <= j < kept_definitions(list, keys, n).len() ==> keys.contains(
                (#[trigger] kept_definitions(list, keys, n)[j]).typeref,
            ),
    decreases n,
{
    if n > 0 {
        law_kept_definitions_resolve(list, keys, n - 1);
    }
}

/// No definition of the variables that are kept refers to a type that is
/// missing, and every variable that is kept has a definition.
pub proof fn law_no_dangling_type(table: Table, keys: Set<usize>, n: int)
    ensures
        forall|i: int, j: int|
            0 <= i < resolved_table(table, keys, n).len() && 0 <= j < resolved_table(
                table,
                keys,
                n,
            )[i].1.len() ==> keys.contains((#[trigger] resolved_table(table, keys, n)[i].1[j]).typeref),
        forall|i: int|
            0 <= i < resolved_table(table, keys, n).len() ==> (#[trigger] resolved_table(
                table,
                keys,
                n,
            )[i]).1.len() > 0,
    decreases n,
{
    if n > 0 {
        law_no_dangling_type(table, keys, n - 1);
        let before = resolved_table(table, keys, n - 1);
        let definitions = kept_definitions(table[n - 1].1, keys, table[n - 1].1.len() as int);
        law_kept_definitions_resolve(table[n - 1].1, keys, table[n - 1].1.len() as int);
        crate::name_map::lemma_position(before, table[n - 1].0);
        let after = resolved_table(table, keys, n);
        assert forall|i: int, j: int|
            0 <= i < after.len() && 0 <= j < after[i].1.len() implies keys.contains(
            (#[trigger] after[i].1[j]).typeref,
        ) by {
            if after[i].1 != definitions {
                assert(after[i] == before[i]);
            }
        }
        assert forall|i: int| 0 <= i < after.len() implies (#[trigger] after[i]).1.len() > 0 by {
            if after[i].1 != definitions {
                assert(after[i] == before[i]);
            }
        }
    }
}

} // verus!
