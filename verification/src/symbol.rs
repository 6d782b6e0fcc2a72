//! Resolution of symbol expressions: from a dotted and indexed path to the
//! address and the type of what it names.

use crate::entries::opt_text;
use crate::name_map::{lemma_position, lookup, position};
use crate::parse::{
    get_additional_spec, spec_get_additional_spec, spec_split_symbol_components,
    split_symbol_components, AdditionalSpec, AdditionalSpecView,
};
use crate::text::{
    chars_of, chars_of_range, join_range, joined, parse_decimal, parse_range, string_from_chars,
    texts,
};
use crate::types::{DbgDataType, DebugData, TypeInfo, VarInfo, VarInfoView};
use vstd::arithmetic::div_mod::{lemma_add_mod_noop, lemma_mod_twice, lemma_mul_mod_noop_left};
use vstd::prelude::*;
use vstd::string::{StrSliceExecFns, StringExecFns};

verus! {

/// Why an expression names nothing.
#[derive(Debug)]
pub enum SymbolError {
    /// No variable has the name, and no demangled name leads to one.
    SymbolNotFound { name: String },
    /// The type reached by `path` has no member `member`.
    MemberNotFound { member: String, path: String },
    /// `index` is not below `extent`, the extent of the dimension it selects
    /// in.
    IndexOutOfBounds { index: usize, expression: String, extent: u64 },
    /// A type without components was reached, and `rest` was left of the
    /// expression.
    TrailingComponents { rest: String, expression: String },
    /// `component` stands where an array index is due and is none.
    UnparsableIndex { component: String },
    /// `offset` is larger than the type of the symbol `name`.
    OffsetOutOfBounds { offset: u64, name: String },
    /// No component of the symbol `name` begins at `offset`.
    NoComponentAtOffset { offset: u64, name: String },
}

/// The mathematical value of a [`SymbolError`].
pub enum SymbolErrorView {
    SymbolNotFound { name: Seq<char> },
    MemberNotFound { member: Seq<char>, path: Seq<char> },
    IndexOutOfBounds { index: usize, expression: Seq<char>, extent: u64 },
    TrailingComponents { rest: Seq<char>, expression: Seq<char> },
    UnparsableIndex { component: Seq<char> },
    OffsetOutOfBounds { offset: u64, name: Seq<char> },
    NoComponentAtOffset { offset: u64, name: Seq<char> },
}

impl View for SymbolError {
    type V = SymbolErrorView;

    open spec fn view(&self) -> SymbolErrorView {
        match *self {
            SymbolError::SymbolNotFound { name } => SymbolErrorView::SymbolNotFound { name: name@ },
            SymbolError::MemberNotFound { member, path } => SymbolErrorView::MemberNotFound {
                member: member@,
                path: path@,
            },
            SymbolError::IndexOutOfBounds {
                index,
                expression,
                extent,
            } => SymbolErrorView::IndexOutOfBounds { index, expression: expression@, extent },
            SymbolError::TrailingComponents {
                rest,
                expression,
            } => SymbolErrorView::TrailingComponents { rest: rest@, expression: expression@ },
            SymbolError::UnparsableIndex { component } => SymbolErrorView::UnparsableIndex {
                component: component@,
            },
            SymbolError::OffsetOutOfBounds { offset, name } => SymbolErrorView::OffsetOutOfBounds {
                offset,
                name: name@,
            },
            SymbolError::NoComponentAtOffset {
                offset,
                name,
            } => SymbolErrorView::NoComponentAtOffset { offset, name: name@ },
        }
    }
}

/// The separator of the components of a path.
pub open spec fn dot() -> Seq<char> {
    seq!['.']
}

/// The index that a component stands for: a decimal numeral between two
/// underscores or between square brackets, of a number that `usize` holds.
pub open spec fn spec_get_index(c: Seq<char>) -> Option<usize> {
    if c.len() >= 2 && ((c[0] == '_' && c.last() == '_') || (c[0] == '[' && c.last() == ']')) {
        match parse_decimal(c.subrange(1, c.len() - 1)) {
            Some(n) => if n <= usize::MAX {
                Some(n as usize)
            } else {
                None
            },
            None => None,
        }
    } else {
        None
    }
}

/// The index that a component stands for, written `_N_` or `[N]`.
pub fn get_index(idxstr: &str) -> (r: Option<usize>)
    ensures
        r == spec_get_index(idxstr@),
{
    let chars = chars_of(idxstr);
    let n = chars.len();
    if n >= 2 && ((chars[0] == '_' && chars[n - 1] == '_') || (chars[0] == '[' && chars[n - 1]
        == ']')) {
        parse_range(&chars, 1, n - 1)
    } else {
        None
    }
}

/// The number that a 64-bit address holds after exact arithmetic gave `a`.
#[verifier::opaque]
pub open spec fn wrap(a: int) -> u64 {
    (a % 0x1_0000_0000_0000_0000) as u64
}

/// The row-major index of the element that the components from `idx` on
/// select in an array of the extents `dim`, the dimensions before `k` having
/// given `acc`. A component that is missing selects element zero of its
/// dimension.
pub open spec fn spec_array_index(
    dim: Seq<u64>,
    comps: Seq<Seq<char>>,
    idx: int,
    k: int,
    acc: int,
) -> Result<int, SymbolErrorView>
    decreases dim.len() - k,
{
    if k < 0 || k >= dim.len() {
        Ok(acc)
    } else {
        let index = if idx + k < comps.len() {
            spec_get_index(comps[idx + k])
        } else {
            Some(0usize)
        };
        match index {
            None => Err(SymbolErrorView::UnparsableIndex { component: comps[idx + k] }),
            Some(n) => if n >= dim[k] {
                Err(
                    SymbolErrorView::IndexOutOfBounds {
                        index: n,
                        expression: joined(comps, dot()),
                        extent: dim[k],
                    },
                )
            } else {
                spec_array_index(dim, comps, idx, k + 1, acc * dim[k] + n)
            },
        }
    }
}

/// Where the components of `comps` from `idx` on lead, starting in a value
/// of type `ty`: the distance in bytes from the start of that value, and the
/// type that is reached.
pub open spec fn spec_find_membertype(
    ty: TypeInfo,
    types: Map<usize, TypeInfo>,
    comps: Seq<Seq<char>>,
    idx: int,
) -> Result<(int, TypeInfo), SymbolErrorView>
    decreases comps.len() - idx, ty,
{
    if idx < 0 || idx >= comps.len() {
        Ok((0, ty))
    } else {
        match ty.datatype {
            DbgDataType::Class { members, inheritance, .. } => match lookup(members@, comps[idx]) {
                Some(member) => below(
                    member.1,
                    spec_find_membertype(member.0.spec_reference(types), types, comps, idx + 1),
                ),
                None => match lookup(inheritance@, comps[idx]) {
                    Some(base) => if idx + 1 < comps.len() && comps[idx + 1] == seq!['_'] {
                        if idx + 2 >= comps.len() {
                            Ok((base.1 as int, base.0.spec_reference(types)))
                        } else {
                            Err(
                                SymbolErrorView::TrailingComponents {
                                    rest: joined(comps.skip(idx + 2), dot()),
                                    expression: joined(comps, dot()),
                                },
                            )
                        }
                    } else {
                        below(
                            base.1,
                            spec_find_membertype(
                                base.0.spec_reference(types),
                                types,
                                comps,
                                idx + 1,
                            ),
                        )
                    },
                    None => Err(
                        SymbolErrorView::MemberNotFound {
                            member: comps[idx],
                            path: joined(comps.take(idx), dot()),
                        },
                    ),
                },
            },
            DbgDataType::Struct { members, .. } | DbgDataType::Union { members, .. } => match lookup(
                members@,
                comps[idx],
            ) {
                Some(member) => below(
                    member.1,
                    spec_find_membertype(member.0.spec_reference(types), types, comps, idx + 1),
                ),
                None => Err(
                    SymbolErrorView::MemberNotFound {
                        member: comps[idx],
                        path: joined(comps.take(idx), dot()),
                    },
                ),
            },
            DbgDataType::Array { dim, stride, arraytype, .. } => match spec_array_index(
                dim@,
                comps,
                idx,
                0,
                0,
            ) {
                Ok(flat) => if idx + dim@.len() >= comps.len() {
                    Ok((flat * stride, *arraytype))
                } else {
                    below_int(
                        flat * stride,
                        spec_find_membertype(*arraytype, types, comps, idx + dim@.len()),
                    )
                },
                Err(e) => Err(e),
            },
            _ => Err(
                SymbolErrorView::TrailingComponents {
                    rest: joined(comps.skip(idx), dot()),
                    expression: joined(comps, dot()),
                },
            ),
        }
    }
}

/// What was found `offset` bytes further on.
pub open spec fn below(offset: u64, found: Result<(int, TypeInfo), SymbolErrorView>) -> Result<
    (int, TypeInfo),
    SymbolErrorView,
> {
    below_int(offset as int, found)
}

/// What was found `offset` bytes further on.
pub open spec fn below_int(offset: int, found: Result<(int, TypeInfo), SymbolErrorView>) -> Result<
    (int, TypeInfo),
    SymbolErrorView,
> {
    match found {
        Ok((o, t)) => Ok((offset + o, t)),
        Err(e) => Err(e),
    }
}

/// A number that 64 bits hold is what they hold of it.
pub proof fn lemma_wrap_small(a: u64)
    ensures
        wrap(a as int) == a,
{
    reveal(wrap);
}

/// A wrapping sum is what 64 bits hold of the exact sum.
pub proof fn lemma_wrapping_add(a: u64, b: u64)
    ensures
        vstd::wrapping::u64_specs::wrapping_add(a, b) == wrap(a + b),
{
    reveal(wrap);
}

/// A wrapping product is what 64 bits hold of the exact product.
pub proof fn lemma_wrapping_mul(a: u64, b: u64)
    ensures
        vstd::wrapping::u64_specs::wrapping_mul(a, b) == wrap(a * b),
{
    reveal(wrap);
    assert(a as nat * b as nat == a * b) by (nonlinear_arith);
    assert(0 <= a * b) by (nonlinear_arith);
}

/// Reducing before an addition changes nothing of the reduced sum.
pub proof fn lemma_wrap_add(x: int, o: int)
    ensures
        wrap(wrap(x) + o) == wrap(x + o),
        wrap(o + wrap(x)) == wrap(o + x),
{
    reveal(wrap);
    let m: int = 0x1_0000_0000_0000_0000;
    lemma_add_mod_noop(x, o, m);
    lemma_add_mod_noop(x % m, o, m);
    lemma_mod_twice(x, m);
}

/// Reducing before a multiplication changes nothing of the reduced product.
pub proof fn lemma_wrap_mul(x: int, y: int)
    ensures
        wrap(wrap(x) * y) == wrap(x * y),
{
    reveal(wrap);
    let m: int = 0x1_0000_0000_0000_0000;
    lemma_mul_mod_noop_left(x, y, m);
}

/// Whether `r` is what `expected` says of a value at `address`: the type
/// that is reached, at the address that 64 bits hold of the exact sum of
/// `address` and the distance; or the same error.
pub open spec fn found_at(
    r: Result<(u64, &TypeInfo), SymbolError>,
    address: u64,
    expected: Result<(int, TypeInfo), SymbolErrorView>,
) -> bool {
    match (r, expected) {
        (Ok((a, t)), Ok((o, st))) => a == wrap(address + o) && *t == st,
        (Err(e), Err(se)) => e@ == se,
        _ => false,
    }
}

/// Follows the components of `components` from `component_index` on,
/// starting in a value of type `typeinfo` at `address`: a member name
/// descends into a struct, a union or a class, a base name into a class, one
/// index per dimension into an array. A base name followed by `_` selects
/// the base itself, and nothing may follow.
pub fn find_membertype<'a>(
    typeinfo: &'a TypeInfo,
    debug_data: &'a DebugData,
    components: &Vec<String>,
    component_index: usize,
    address: u64,
) -> (r: Result<(u64, &'a TypeInfo), SymbolError>)
    ensures
        found_at(
            r,
            address,
            spec_find_membertype(
                *typeinfo,
                debug_data.spec_types(),
                texts(components@),
                component_index as int,
            ),
        ),
    decreases components@.len() - component_index, *typeinfo,
{
    let ghost comps = texts(components@);
    let ghost types = debug_data.spec_types();
    if component_index >= components.len() {
        proof {
            lemma_wrap_small(address);
        }
        return Ok((address, typeinfo));
    }
    assert(comps[component_index as int] == components@[component_index as int]@);
    assert(comps.subrange(0, comps.len() as int) =~= comps);
    assert(comps.subrange(0, component_index as int) =~= comps.take(component_index as int));
    assert(comps.subrange(component_index as int, comps.len() as int) =~= comps.skip(
        component_index as int,
    ));
    let name = components[component_index].as_str();
    match &typeinfo.datatype {
        DbgDataType::Class { members, inheritance, .. } => match members.get(name) {
            Some(member) => {
                let membertype = member.0.get_reference(debug_data.types());
                let r = find_membertype(
                    membertype,
                    debug_data,
                    components,
                    component_index + 1,
                    address.wrapping_add(member.1),
                );
                proof {
                    lemma_wrapping_add(address, member.1);
                    match spec_find_membertype(*membertype, types, comps, component_index + 1) {
                        Ok((o, _)) => {
                            lemma_wrap_add(address + member.1, o);
                        },
                        Err(_) => {},
                    }
                }
                r
            },
            None => match inheritance.get(name) {
                Some(base) => {
                    let basetype = base.0.get_reference(debug_data.types());
                    let base_address = address.wrapping_add(base.1);
                    proof {
                        lemma_wrapping_add(address, base.1);
                    }
                    let marked = if components.len() - component_index > 1 {
                        assert(comps[component_index + 1] == components@[component_index + 1]@);
                        is_underscore(components[component_index + 1].as_str())
                    } else {
                        false
                    };
                    if marked {
                        if components.len() - component_index <= 2 {
                            Ok((base_address, basetype))
                        } else {
                            assert(comps.subrange(component_index + 2, comps.len() as int)
                                =~= comps.skip(component_index + 2));
                            Err(
                                SymbolError::TrailingComponents {
                                    rest: join_components(
                                        components,
                                        component_index + 2,
                                        components.len(),
                                    ),
                                    expression: join_components(components, 0, components.len()),
                                },
                            )
                        }
                    } else {
                        let r = find_membertype(
                            basetype,
                            debug_data,
                            components,
                            component_index + 1,
                            base_address,
                        );
                        proof {
                            match spec_find_membertype(
                                *basetype,
                                types,
                                comps,
                                component_index + 1,
                            ) {
                                Ok((o, _)) => {
                                    lemma_wrap_add(address + base.1, o);
                                },
                                Err(_) => {},
                            }
                        }
                        r
                    }
                },
                None => Err(
                    SymbolError::MemberNotFound {
                        member: components[component_index].clone(),
                        path: join_components(components, 0, component_index),
                    },
                ),
            },
        },
        DbgDataType::Struct { members, .. } | DbgDataType::Union { members, .. } => match members.get(
            name,
        ) {
            Some(member) => {
                let membertype = member.0.get_reference(debug_data.types());
                let r = find_membertype(
                    membertype,
                    debug_data,
                    components,
                    component_index + 1,
                    address.wrapping_add(member.1),
                );
                proof {
                    lemma_wrapping_add(address, member.1);
                    match spec_find_membertype(*membertype, types, comps, component_index + 1) {
                        Ok((o, _)) => {
                            lemma_wrap_add(address + member.1, o);
                        },
                        Err(_) => {},
                    }
                }
                r
            },
            None => Err(
                SymbolError::MemberNotFound {
                    member: components[component_index].clone(),
                    path: join_components(components, 0, component_index),
                },
            ),
        },
        DbgDataType::Array { dim, stride, arraytype, .. } => {
            let multi_index = match array_index(dim, components, component_index) {
                Ok(multi_index) => multi_index,
                Err(e) => {
                    return Err(e);
                },
            };
            let ghost flat = spec_array_index(dim@, comps, component_index as int, 0, 0)->Ok_0;
            let elementaddr = address.wrapping_add(multi_index.wrapping_mul(*stride));
            proof {
                lemma_wrapping_mul(multi_index, *stride);
                lemma_wrapping_add(address, multi_index.wrapping_mul(*stride));
                lemma_wrap_mul(flat, *stride as int);
                lemma_wrap_add(flat * *stride, address as int);
            }
            if dim.len() >= components.len() - component_index {
                Ok((elementaddr, &**arraytype))
            } else {
                let r = find_membertype(
                    &**arraytype,
                    debug_data,
                    components,
                    component_index + dim.len(),
                    elementaddr,
                );
                proof {
                    match spec_find_membertype(
                        **arraytype,
                        types,
                        comps,
                        component_index + dim@.len(),
                    ) {
                        Ok((o, _)) => {
                            lemma_wrap_add(address + flat * *stride, o);
                        },
                        Err(_) => {},
                    }
                }
                r
            }
        },
        _ => Err(
            SymbolError::TrailingComponents {
                rest: join_components(components, component_index, components.len()),
                expression: join_components(components, 0, components.len()),
            },
        ),
    }
}

/// The row-major index of the element that the components from
/// `component_index` on select in an array of the extents `dim`, as 64 bits
/// hold it.
fn array_index(dim: &Vec<u64>, components: &Vec<String>, component_index: usize) -> (r: Result<
    u64,
    SymbolError,
>)
    requires
        component_index < components@.len(),
    ensures
        match (r, spec_array_index(dim@, texts(components@), component_index as int, 0, 0)) {
            (Ok(multi_index), Ok(flat)) => multi_index == wrap(flat),
            (Err(e), Err(se)) => e@ == se,
            _ => false,
        },
{
    let ghost comps = texts(components@);
    let remaining = components.len() - component_index;
    let mut multi_index: u64 = 0;
    let ghost mut flat: int = 0;
    let mut k: usize = 0;
    proof {
        lemma_wrap_small(0);
    }
    while k < dim.len()
        invariant
            k <= dim@.len(),
            component_index < components@.len(),
            remaining == components@.len() - component_index,
            components@.len() <= usize::MAX,
            comps == texts(components@),
            multi_index == wrap(flat),
            spec_array_index(dim@, comps, component_index as int, k as int, flat)
                == spec_array_index(dim@, comps, component_index as int, 0, 0),
        decreases dim@.len() - k,
    {
        let index: usize = if k < remaining {
            assert(component_index + k < components@.len());
            assert(comps[component_index + k] == components@[component_index + k]@);
            match get_index(components[component_index + k].as_str()) {
                Some(index) => index,
                None => {
                    return Err(
                        SymbolError::UnparsableIndex {
                            component: components[component_index + k].clone(),
                        },
                    );
                },
            }
        } else {
            0
        };
        if index as u64 >= dim[k] {
            assert(comps.subrange(0, comps.len() as int) =~= comps);
            return Err(
                SymbolError::IndexOutOfBounds {
                    index,
                    expression: join_components(components, 0, components.len()),
                    extent: dim[k],
                },
            );
        }
        proof {
            lemma_wrapping_mul(multi_index, dim@[k as int]);
            lemma_wrapping_add(multi_index.wrapping_mul(dim@[k as int]), index as u64);
            lemma_wrap_mul(flat, dim@[k as int] as int);
            lemma_wrap_add(flat * dim@[k as int], index as int);
            flat = flat * dim@[k as int] + index;
        }
        multi_index = multi_index.wrapping_mul(dim[k]).wrapping_add(index as u64);
        k += 1;
    }
    Ok(multi_index)
}

/// Whether `s` is a single underscore.
fn is_underscore(s: &str) -> (r: bool)
    ensures
        r == (s@ == seq!['_']),
{
    let chars = chars_of(s);
    let r = chars.len() == 1 && chars[0] == '_';
    proof {
        if r {
            assert(s@ =~= seq!['_']);
        }
    }
    r
}

/// The components of `components` from `from` up to `to`, with dots between
/// them.
fn join_components(components: &Vec<String>, from: usize, to: usize) -> (r: String)
    requires
        from <= to <= components@.len(),
    ensures
        r@ == joined(texts(components@).subrange(from as int, to as int), dot()),
{
    proof {
        reveal_strlit(".");
        assert("."@ =~= dot());
    }
    join_range(components, ".", from, to)
}

/// Whether `c` is a letter of the Latin alphabet or a decimal digit.
pub open spec fn is_alphanumeric(c: char) -> bool {
    ('0' <= c && c <= '9') || ('a' <= c && c <= 'z') || ('A' <= c && c <= 'Z')
}

/// `name` with `_` in place of every character that is neither a letter nor
/// a digit: two unit names are taken for the same where this gives the same.
pub open spec fn normalized(name: Seq<char>) -> Seq<char> {
    Seq::new(
        name.len(),
        |i: int|
            if is_alphanumeric(name[i]) {
                name[i]
            } else {
                '_'
            },
    )
}

/// `name` with `_` in place of every character that is neither a letter nor
/// a digit.
pub fn normalize(name: &str) -> (r: Vec<char>)
    ensures
        r@ == normalized(name@),
{
    let chars = chars_of(name);
    let mut out: Vec<char> = Vec::new();
    let mut i: usize = 0;
    while i < chars.len()
        invariant
            i <= chars@.len(),
            chars@ == name@,
            out@ == normalized(name@).take(i as int),
        decreases chars@.len() - i,
    {
        let c = chars[i];
        if ('0' <= c && c <= '9') || ('a' <= c && c <= 'z') || ('A' <= c && c <= 'Z') {
            out.push(c);
        } else {
            out.push('_');
        }
        i += 1;
        assert(out@ =~= normalized(name@).take(i as int));
    }
    assert(out@ =~= normalized(name@));
    out
}

/// Whether two vectors hold the same characters.
fn same_chars(a: &Vec<char>, b: &Vec<char>) -> (r: bool)
    ensures
        r == (a@ == b@),
{
    if a.len() != b.len() {
        return false;
    }
    let mut i: usize = 0;
    while i < a.len()
        invariant
            i <= a@.len() == b@.len(),
            forall|j: int| 0 <= j < i ==> a@[j] == b@[j],
        decreases a@.len() - i,
    {
        if a[i] != b[i] {
            return false;
        }
        i += 1;
    }
    assert(a@ =~= b@);
    true
}

/// Whether two vectors hold the same names.
fn same_names(a: &Vec<String>, b: &Vec<String>) -> (r: bool)
    ensures
        r == (texts(a@) == texts(b@)),
{
    if a.len() != b.len() {
        assert(texts(a@).len() != texts(b@).len());
        return false;
    }
    let mut i: usize = 0;
    while i < a.len()
        invariant
            i <= a@.len() == b@.len(),
            forall|j: int| 0 <= j < i ==> a@[j]@ == b@[j]@,
        decreases a@.len() - i,
    {
        if a[i] != b[i] {
            assert(texts(a@)[i as int] != texts(b@)[i as int]);
            return false;
        }
        i += 1;
    }
    assert(texts(a@) =~= texts(b@));
    true
}

/// The display name of the unit `unit_idx`, where it has one.
pub open spec fn unit_name_of(unit_names: Seq<Option<String>>, unit_idx: usize) -> Option<
    Seq<char>,
> {
    if unit_idx < unit_names.len() {
        opt_text(unit_names[unit_idx as int])
    } else {
        None
    }
}

/// Whether a definition is one that `spec` asks for. A compile unit that is
/// named must be the unit of the definition, up to characters that are
/// neither letters nor digits; a function that is named must be the function
/// of the definition; namespaces that are named must be the namespaces of
/// the definition, in their order. What is not named matches.
pub open spec fn matches_spec(
    spec: AdditionalSpecView,
    definition: VarInfoView,
    unit_names: Seq<Option<String>>,
) -> bool {
    &&& match spec.simple_unit_name {
        Some(unit) => match unit_name_of(unit_names, definition.unit_idx) {
            Some(name) => normalized(unit) == normalized(name),
            None => false,
        },
        None => true,
    }
    &&& match spec.function_name {
        Some(function) => definition.function == Some(function),
        None => true,
    }
    &&& (spec.namespaces.len() == 0 || spec.namespaces == definition.namespaces)
}

/// The position of the first definition at or after `from` that `spec` asks
/// for.
pub open spec fn first_match(
    list: Seq<VarInfo>,
    spec: AdditionalSpecView,
    unit_names: Seq<Option<String>>,
    from: int,
) -> Option<int>
    decreases list.len() - from,
{
    if from < 0 || from >= list.len() {
        None
    } else if matches_spec(spec, list[from]@, unit_names) {
        Some(from)
    } else {
        first_match(list, spec, unit_names, from + 1)
    }
}

/// The mathematical value of a specification that may be absent.
pub open spec fn opt_spec(spec: Option<AdditionalSpec>) -> Option<AdditionalSpecView> {
    match spec {
        Some(s) => Some(s@),
        None => None,
    }
}

/// The position of the definition that is meant: the first one that `spec`
/// asks for; the first of all where there is no specification, or none of
/// the definitions is asked for.
pub open spec fn spec_select_varinfo(
    list: Seq<VarInfo>,
    spec: Option<AdditionalSpecView>,
    unit_names: Seq<Option<String>>,
) -> int {
    match spec {
        Some(spec) => match first_match(list, spec, unit_names, 0) {
            Some(i) => i,
            None => 0,
        },
        None => 0,
    }
}

/// `first_match` finds a position of the list.
pub proof fn lemma_first_match_in_range(
    list: Seq<VarInfo>,
    spec: AdditionalSpecView,
    unit_names: Seq<Option<String>>,
    from: int,
)
    requires
        0 <= from,
    ensures
        match first_match(list, spec, unit_names, from) {
            Some(i) => from <= i < list.len(),
            None => true,
        },
    decreases list.len() - from,
{
    if from < list.len() && !matches_spec(spec, list[from]@, unit_names) {
        lemma_first_match_in_range(list, spec, unit_names, from + 1);
    }
}

/// Whether the definition `definition` is one that `spec` asks for;
/// `unit` holds the compile unit that `spec` names, normalized.
fn matches(
    spec: &AdditionalSpec,
    unit: &Option<Vec<char>>,
    definition: &VarInfo,
    debug_data: &DebugData,
) -> (r: bool)
    requires
        match (*unit, spec.simple_unit_name) {
            (Some(u), Some(name)) => u@ == normalized(name@),
            (None, None) => true,
            _ => false,
        },
    ensures
        r == matches_spec(spec@, definition@, debug_data.spec_unit_names()),
{
    let unit_names = debug_data.unit_names();
    let unit_ok = match unit {
        Some(unit) => if definition.unit_idx < unit_names.len() {
            match &unit_names[definition.unit_idx] {
                Some(name) => {
                    let normal = normalize(name.as_str());
                    same_chars(unit, &normal)
                },
                None => false,
            }
        } else {
            false
        },
        None => true,
    };
    let function_ok = match &spec.function_name {
        Some(function) => match &definition.function {
            Some(f) => *function == *f,
            None => false,
        },
        None => true,
    };
    unit_ok && function_ok && (spec.namespaces.len() == 0 || same_names(
        &spec.namespaces,
        &definition.namespaces,
    ))
}

/// Picks, among the definitions of one name, the one that is meant: the
/// first that `additional_spec` asks for, else the first of all.
pub fn select_varinfo<'a>(
    varinfo_list: &'a [VarInfo],
    additional_spec: &Option<AdditionalSpec>,
    debug_data: &DebugData,
) -> (r: &'a VarInfo)
    requires
        varinfo_list@.len() > 0,
    ensures
        0 <= spec_select_varinfo(
            varinfo_list@,
            opt_spec(*additional_spec),
            debug_data.spec_unit_names(),
        ) < varinfo_list@.len(),
        *r == varinfo_list@[spec_select_varinfo(
            varinfo_list@,
            opt_spec(*additional_spec),
            debug_data.spec_unit_names(),
        )],
{
    if let Some(spec) = additional_spec {
        let ghost unit_names = debug_data.spec_unit_names();
        proof {
            lemma_first_match_in_range(varinfo_list@, spec@, unit_names, 0);
        }
        let unit = match &spec.simple_unit_name {
            Some(name) => Some(normalize(name.as_str())),
            None => None,
        };
        let mut i: usize = 0;
        while i < varinfo_list.len()
            invariant
                i <= varinfo_list@.len(),
                *additional_spec == Some(*spec),
                unit_names == debug_data.spec_unit_names(),
                match (unit, spec.simple_unit_name) {
                    (Some(u), Some(name)) => u@ == normalized(name@),
                    (None, None) => true,
                    _ => false,
                },
                first_match(varinfo_list@, spec@, unit_names, i as int) == first_match(
                    varinfo_list@,
                    spec@,
                    unit_names,
                    0,
                ),
            decreases varinfo_list@.len() - i,
        {
            if matches(spec, &unit, &varinfo_list[i], debug_data) {
                return &varinfo_list[i];
            }
            i += 1;
        }
    }
    &varinfo_list[0]
}

/// What an expression resolves to.
#[derive(Clone, Debug)]
pub struct SymbolInfo<'dbg> {
    /// The expression, as far as it names the symbol.
    pub name: String,
    pub address: u64,
    pub typeinfo: &'dbg TypeInfo,
    /// The compile unit of the definition that was chosen.
    pub unit_idx: usize,
    /// The function of the definition that was chosen.
    pub function_name: &'dbg Option<String>,
    /// The namespaces of the definition that was chosen.
    pub namespaces: &'dbg [String],
    /// Whether the variable has one definition only.
    pub is_unique: bool,
}

/// What a path resolves to: an address and a type, the definition of the
/// variable that was chosen, and whether it was the only one.
pub struct Resolution {
    pub address: u64,
    pub typeinfo: TypeInfo,
    pub definition: VarInfo,
    pub is_unique: bool,
}

/// Whether `symbol` says what `resolution` says, under the name `name`.
pub open spec fn symbol_is(symbol: SymbolInfo, name: Seq<char>, resolution: Resolution) -> bool {
    &&& symbol.name@ == name
    &&& symbol.address == resolution.address
    &&& *symbol.typeinfo == resolution.typeinfo
    &&& symbol.unit_idx == resolution.definition.unit_idx
    &&& *symbol.function_name == resolution.definition.function
    &&& symbol.namespaces@ == resolution.definition.namespaces@
    &&& symbol.is_unique == resolution.is_unique
}

/// What the components of a path resolve to. The first component names a
/// variable; among its definitions the one that `spec` asks for is chosen;
/// the other components lead from the address and the type of that
/// definition to a member or an element.
pub open spec fn spec_find_symbol_from_components(
    debug_data: &DebugData,
    comps: Seq<Seq<char>>,
    spec: Option<AdditionalSpecView>,
) -> Result<Resolution, SymbolErrorView> {
    match lookup(debug_data.spec_variables(), comps[0]) {
        None => Err(SymbolErrorView::SymbolNotFound { name: comps[0] }),
        Some(list) => {
            let definition = list@[spec_select_varinfo(list@, spec, debug_data.spec_unit_names())];
            match spec_find_membertype(
                debug_data.spec_types()[definition.typeref],
                debug_data.spec_types(),
                comps,
                1,
            ) {
                Ok((offset, typeinfo)) => Ok(
                    Resolution {
                        address: wrap(definition.address + offset),
                        typeinfo,
                        definition,
                        is_unique: list@.len() == 1,
                    },
                ),
                Err(e) => Err(e),
            }
        },
    }
}

/// Resolves the components of a path: finds the variable that the first
/// component names, picks the definition that is meant, and follows the
/// other components into its type. The symbol that is returned has an empty
/// name.
pub fn find_symbol_from_components<'a>(
    components: &Vec<String>,
    additional_spec: &Option<AdditionalSpec>,
    debug_data: &'a DebugData,
) -> (r: Result<SymbolInfo<'a>, SymbolError>)
    requires
        components@.len() > 0,
    ensures
        match (
            r,
            spec_find_symbol_from_components(
                debug_data,
                texts(components@),
                opt_spec(*additional_spec),
            ),
        ) {
            (Ok(symbol), Ok(resolution)) => symbol_is(symbol, Seq::<char>::empty(), resolution),
            (Err(e), Err(expected)) => e@ == expected,
            _ => false,
        },
{
    broadcast use vstd::std_specs::hash::group_hash_axioms;

    let ghost comps = texts(components@);
    assert(comps[0] == components@[0]@);
    let variables = debug_data.variables();
    proof {
        lemma_position(variables@, comps[0]);
    }
    let varinfo_list = match variables.get(components[0].as_str()) {
        Some(list) => list,
        None => {
            return Err(SymbolError::SymbolNotFound { name: components[0].clone() });
        },
    };
    let ghost at = position(variables@, comps[0])->Some_0;
    assert(variables@[at].1 == *varinfo_list);
    let varinfo = select_varinfo(varinfo_list.as_slice(), additional_spec, debug_data);
    let is_unique = varinfo_list.len() == 1;
    let vartype = match debug_data.types().get(&varinfo.typeref) {
        Some(vartype) => vartype,
        None => {
            proof {
                let k = spec_select_varinfo(
                    varinfo_list@,
                    opt_spec(*additional_spec),
                    debug_data.spec_unit_names(),
                );
                assert(debug_data.spec_types().contains_key(variables@[at].1@[k].typeref));
            }
            return Err(SymbolError::SymbolNotFound { name: components[0].clone() });
        },
    };
    match find_membertype(vartype, debug_data, components, 1, varinfo.address) {
        Ok((address, typeinfo)) => Ok(
            SymbolInfo {
                name: String::new(),
                address,
                typeinfo,
                unit_idx: varinfo.unit_idx,
                function_name: &varinfo.function,
                namespaces: varinfo.namespaces.as_slice(),
                is_unique,
            },
        ),
        Err(e) => Err(e),
    }
}

/// What stands behind the first `n` characters of `expr`.
pub open spec fn rest_after(expr: Seq<char>, n: nat) -> Seq<char> {
    if n <= expr.len() {
        expr.subrange(n as int, expr.len() as int)
    } else {
        Seq::<char>::empty()
    }
}

/// What an expression resolves to, and under which name. The path is
/// resolved as it stands, and the result goes under the path. Where no
/// variable has the name of the first component and that component is the
/// readable form of a mangled name, the mangled name is tried in its place,
/// and the result goes under that name with the rest of the expression
/// behind it; where that fails too, the first error stands.
pub open spec fn spec_find_symbol(debug_data: &DebugData, expr: Seq<char>) -> Result<
    (Seq<char>, Resolution),
    SymbolErrorView,
> {
    let (plain, spec) = spec_get_additional_spec(expr);
    let comps = spec_split_symbol_components(plain);
    match spec_find_symbol_from_components(debug_data, comps, spec) {
        Ok(resolution) => Ok((plain, resolution)),
        Err(e) => if lookup(debug_data.spec_variables(), comps[0]) is Some {
            Err(e)
        } else {
            match lookup(debug_data.spec_demangled_names(), comps[0]) {
                Some(mangled) => match spec_find_symbol_from_components(
                    debug_data,
                    comps.update(0, mangled@),
                    spec,
                ) {
                    Ok(resolution) => Ok(
                        (mangled@ + rest_after(expr, comps[0].len()), resolution),
                    ),
                    Err(_) => Err(e),
                },
                None => Err(e),
            }
        },
    }
}

/// Whether `r` is what the expression `expr` resolves to in `debug_data`:
/// the symbol with the name, the address, the type and the definition that
/// are due, or the error that is due.
pub open spec fn is_resolution(
    r: Result<SymbolInfo, SymbolError>,
    debug_data: &DebugData,
    expr: Seq<char>,
) -> bool {
    match (r, spec_find_symbol(debug_data, expr)) {
        (Ok(symbol), Ok((name, resolution))) => symbol_is(symbol, name, resolution),
        (Err(e), Err(expected)) => e@ == expected,
        _ => false,
    }
}

/// `components` with `first` in place of its first component.
fn with_first(components: &Vec<String>, first: &String) -> (r: Vec<String>)
    requires
        components@.len() > 0,
    ensures
        texts(r@) == texts(components@).update(0, first@),
        r@.len() == components@.len(),
{
    let mut out: Vec<String> = Vec::new();
    out.push(first.clone());
    let mut i: usize = 1;
    while i < components.len()
        invariant
            1 <= i <= components@.len(),
            out@.len() == i,
            out@[0]@ == first@,
            forall|j: int| 1 <= j < i ==> out@[j]@ == components@[j]@,
        decreases components@.len() - i,
    {
        out.push(components[i].clone());
        i += 1;
    }
    assert(texts(out@) =~= texts(components@).update(0, first@));
    out
}

/// Resolves a symbol expression against the variables and types of
/// `debug_data`: a path of names and array indices, with groups in braces
/// behind it that say which of several variables of the same name is meant.
pub fn find_symbol<'a>(varname: &str, debug_data: &'a DebugData) -> (r: Result<
    SymbolInfo<'a>,
    SymbolError,
>)
    ensures
        is_resolution(r, debug_data, varname@),
{
    let (plain_symbol, additional_spec) = get_additional_spec(varname);
    let components = split_symbol_components(plain_symbol.as_str());
    let ghost comps = texts(components@);
    assert(comps[0] == components@[0]@);
    match find_symbol_from_components(&components, &additional_spec, debug_data) {
        Ok(symbol) => Ok(
            SymbolInfo {
                name: plain_symbol,
                address: symbol.address,
                typeinfo: symbol.typeinfo,
                unit_idx: symbol.unit_idx,
                function_name: symbol.function_name,
                namespaces: symbol.namespaces,
                is_unique: symbol.is_unique,
            },
        ),
        Err(find_err) => {
            if debug_data.variables().get(components[0].as_str()).is_some() {
                return Err(find_err);
            }
            if let Some(mangled) = debug_data.demangled_names().get(components[0].as_str()) {
                let components_mangled = with_first(&components, mangled);
                if let Ok(symbol) = find_symbol_from_components(
                    &components_mangled,
                    &additional_spec,
                    debug_data,
                ) {
                    let chars = chars_of(varname);
                    let skip = components[0].as_str().unicode_len();
                    let mut name = mangled.clone();
                    if skip <= chars.len() {
                        let rest = string_from_chars(
                            chars_of_range(&chars, skip, chars.len()).as_slice(),
                        );
                        name.append(rest.as_str());
                    } else {
                        assert(name@ =~= mangled@ + rest_after(varname@, comps[0].len()));
                    }
                    return Ok(
                        SymbolInfo {
                            name,
                            address: symbol.address,
                            typeinfo: symbol.typeinfo,
                            unit_idx: symbol.unit_idx,
                            function_name: symbol.function_name,
                            namespaces: symbol.namespaces,
                            is_unique: symbol.is_unique,
                        },
                    );
                }
            }
            Err(find_err)
        },
    }
}

} // verus!
