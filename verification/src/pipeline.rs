//! From the entries of the compile units to the finished data: the
//! variables, the types that they and the structs need, and the names.

use crate::demangle::{demangle_cpp_varnames, demangled_table, name_table_view};
use crate::entries::{opt_text, CompileUnit, EntryTag};
use crate::extract::{
    all_classes, all_tables, class_views, definitions_view, table_view, unit_display_name,
    DebugDataReader, Table,
};
use crate::name_map::{lemma_position, position, with_entry, NameMap};
use crate::text::texts;
use crate::typereader::{spec_type, type_fuel, Source, TypeReader};
use crate::types::{all_defined, typerefs_resolve, DebugData, TypeInfo, VarInfo, VarInfoView};
use crate::views::type_view;
use std::collections::HashMap;
use vstd::prelude::*;

verus! {

/// Whether an entry with the tag `tag` describes a struct, a union or a
/// class.
pub open spec fn is_aggregate(tag: EntryTag) -> bool {
    tag == EntryTag::StructureType || tag == EntryTag::UnionType || tag == EntryTag::ClassType
}

/// Whether the entry at `i` of the unit `u` describes a struct, a union or
/// a class at the offset `key`.
pub open spec fn aggregate_at(units: Seq<CompileUnit>, u: int, i: int, key: usize) -> bool {
    &&& 0 <= u < units.len()
    &&& 0 <= i < units[u].entries@.len()
    &&& is_aggregate(units[u].entries@[i].tag)
    &&& units[u].entries@[i].offset == key
}

/// Whether the definition `b` of the variable `a` has the type `key`.
pub open spec fn defined_at(variables: Table, a: int, b: int, key: usize) -> bool {
    &&& 0 <= a < variables.len()
    &&& 0 <= b < variables[a].1.len()
    &&& variables[a].1[b].typeref == key
}

/// Whether `(u, i)` stands before `(v, j)`.
pub open spec fn before(u: int, i: int, v: int, j: int) -> bool {
    u < v || (u == v && i < j)
}

/// Whether the type at `key` is asked for by an entry before the entry `i`
/// of the unit `u`, or by a definition before the definition `b` of the
/// variable `a`.
pub open spec fn wanted_before(
    units: Seq<CompileUnit>,
    variables: Table,
    u: int,
    i: int,
    a: int,
    b: int,
    key: usize,
) -> bool {
    ||| exists|v: int, j: int| #[trigger] aggregate_at(units, v, j, key) && before(v, j, u, i)
    ||| exists|c: int, d: int| #[trigger] defined_at(variables, c, d, key) && before(c, d, a, b)
}

/// Whether the type at `key` is asked for: it is the type of a variable, or
/// a struct, a union or a class.
pub open spec fn wanted(
    units: Seq<CompileUnit>,
    variables: Table,
    key: usize,
) -> bool {
    ||| exists|v: int, j: int| #[trigger] aggregate_at(units, v, j, key)
    ||| exists|c: int, d: int| #[trigger] defined_at(variables, c, d, key)
}

/// The type that is built for `key`.
pub open spec fn built(src: Source, key: usize) -> Option<crate::views::TypeView> {
    spec_type(src, key, false, type_fuel(src.units))
}

/// Whether `types` holds, under its offset, each type that is asked for up
/// to the given places and can be built, and holds nothing else.
pub open spec fn types_loaded(
    types: Map<usize, TypeInfo>,
    src: Source,
    variables: Table,
    u: int,
    i: int,
    a: int,
    b: int,
) -> bool {
    &&& forall|key: usize| #[trigger]
        types.contains_key(key) <==> wanted_before(src.units, variables, u, i, a, b, key)
            && built(src, key) is Some
    &&& forall|key: usize| #[trigger]
        types.contains_key(key) ==> built(src, key) == Some(type_view(types[key]))
}

/// Whether `types` holds, under its offset, each type that is asked for
/// and can be built, and holds nothing else.
pub open spec fn types_complete(
    types: Map<usize, TypeInfo>,
    src: Source,
    variables: Table,
) -> bool {
    &&& forall|key: usize| #[trigger]
        types.contains_key(key) <==> wanted(src.units, variables, key) && built(src, key)
            is Some
    &&& forall|key: usize| #[trigger]
        types.contains_key(key) ==> built(src, key) == Some(type_view(types[key]))
}

/// Whether `typenames` leads from the name of each type of `types` that
/// has one to a type of that name, and to nothing else.
pub open spec fn names_indexed(typenames: Seq<(Seq<char>, usize)>, types: Map<usize, TypeInfo>) -> bool {
    &&& forall|i: int|
        0 <= i < typenames.len() ==> types.contains_key((#[trigger] typenames[i]).1)
            && opt_text(types[typenames[i].1].name) == Some(typenames[i].0)
    &&& forall|key: usize| #[trigger]
        types.contains_key(key) && types[key].name is Some ==> position(
            typenames,
            types[key].name->Some_0@,
        ) is Some
}

/// Builds the type at `key`, unless `types` holds it, and puts it into
/// `types`, and its name into `typenames`.
fn load_type(
    reader: &TypeReader,
    key: usize,
    types: &mut HashMap<usize, TypeInfo>,
    typenames: &mut NameMap<usize>,
)
    requires
        forall|k: usize| #[trigger]
            old(types)@.contains_key(k) ==> built(reader.source(), k) == Some(
                type_view(old(types)@[k]),
            ),
        names_indexed(old(typenames)@, old(types)@),
    ensures
        forall|k: usize| #[trigger]
            final(types)@.contains_key(k) <==> old(types)@.contains_key(k) || (k == key && built(
                reader.source(),
                key,
            ) is Some),
        forall|k: usize| #[trigger]
            final(types)@.contains_key(k) ==> built(reader.source(), k) == Some(
                type_view(final(types)@[k]),
            ),
        names_indexed(final(typenames)@, final(types)@),
{
    broadcast use vstd::std_specs::hash::group_hash_axioms;

    if types.contains_key(&key) {
        return ;
    }
    let typeinfo = match reader.get_type(key) {
        Some(typeinfo) => typeinfo,
        None => {
            return ;
        },
    };
    let ghost names0 = typenames@;
    let ghost types0 = types@;
    if let Some(name) = &typeinfo.name {
        proof {
            lemma_position(names0, name@);
        }
        if typenames.get_index_of(name.as_str()).is_none() {
            let _ = typenames.insert(name.clone(), key);
            assert(typenames@[names0.len() as int].0 == name@);
        }
        proof {
            lemma_position(typenames@, name@);
            assert(position(typenames@, name@) is Some);
            assert forall|k: usize| #[trigger]
                types0.contains_key(k) && types0[k].name is Some implies position(
                typenames@,
                types0[k].name->Some_0@,
            ) is Some by {
                let n = types0[k].name->Some_0@;
                lemma_position(names0, n);
                let at = position(names0, n)->Some_0;
                assert(typenames@[at].0 == n);
                lemma_position(typenames@, n);
            }
        }
    }
    let ghost names1 = typenames@;
    let ghost shown = typeinfo;
    assert forall|k: usize| #[trigger]
        types0.contains_key(k) && types0[k].name is Some implies position(
        names1,
        types0[k].name->Some_0@,
    ) is Some by {}
    assert(shown.name is Some ==> position(names1, shown.name->Some_0@) is Some);
    let _ = types.insert(key, typeinfo);
    proof {
        assert forall|i: int| 0 <= i < names1.len() implies types@.contains_key(
            (#[trigger] names1[i]).1,
        ) && opt_text(types@[names1[i].1].name) == Some(names1[i].0) by {
            if i < names0.len() {
                assert(names1[i] == names0[i]);
                assert(types0.contains_key(names0[i].1));
            }
        }
        assert forall|k: usize| #[trigger]
            types@.contains_key(k) && types@[k].name is Some implies position(
            names1,
            types@[k].name->Some_0@,
        ) is Some by {
            if k != key {
                assert(types0.contains_key(k));
                assert(types@[k] == types0[k]);
            } else {
                assert(types@[k] == shown);
            }
        }
    }
}

impl DebugDataReader {
    /// What the types are built from.
    pub open spec fn source(&self) -> Source {
        Source {
            units: self.units@,
            classes: class_views(self.class_names@),
            big_endian: self.big_endian,
        }
    }

    /// Builds the types that are asked for: the type of each definition of
    /// each variable, and each struct, union and class, so that a
    /// reference from a member to its type finds it. Each is held under its
    /// offset; what cannot be built is left out. With them comes an index
    /// from the names of the types.
    pub fn load_types(&self, variables: &NameMap<Vec<VarInfo>>) -> (r: (
        HashMap<usize, TypeInfo>,
        NameMap<usize>,
    ))
        ensures
            types_complete(r.0@, self.source(), table_view(variables@)),
            names_indexed(r.1@, r.0@),
    {
        let reader = TypeReader::new(&self.units, &self.class_names, self.big_endian);
        let ghost src = self.source();
        let ghost vars = table_view(variables@);
        let mut types: HashMap<usize, TypeInfo> = HashMap::new();
        let mut typenames: NameMap<usize> = NameMap::new();
        let mut u: usize = 0;
        while u < self.units.len()
            invariant
                u <= self.units@.len(),
                src == self.source(),
                src == reader.source(),
                vars == table_view(variables@),
                types_loaded(types@, src, vars, u as int, 0, 0, 0),
                names_indexed(typenames@, types@),
            decreases self.units@.len() - u,
        {
            let entries = &self.units[u].entries;
            let mut i: usize = 0;
            while i < entries.len()
                invariant
                    u < self.units@.len(),
                    i <= entries@.len(),
                    *entries == self.units@[u as int].entries,
                    src == self.source(),
                    src == reader.source(),
                    vars == table_view(variables@),
                    types_loaded(types@, src, vars, u as int, i as int, 0, 0),
                    names_indexed(typenames@, types@),
                decreases entries@.len() - i,
            {
                let tag = entries[i].tag;
                let ghost types0 = types@;
                let key = entries[i].offset;
                let aggregate = tag == EntryTag::StructureType || tag == EntryTag::UnionType || tag
                    == EntryTag::ClassType;
                if aggregate {
                    load_type(&reader, key, &mut types, &mut typenames);
                }
                proof {
                    assert forall|k: usize| #[trigger]
                        types@.contains_key(k) <==> wanted_before(
                            src.units,
                            vars,
                            u as int,
                            i + 1,
                            0,
                            0,
                            k,
                        ) && built(src, k) is Some by {
                        if wanted_before(src.units, vars, u as int, i + 1, 0, 0, k) {
                            if !wanted_before(src.units, vars, u as int, i as int, 0, 0, k) {
                                let (v, j) = choose|v: int, j: int| #[trigger]
                                    aggregate_at(src.units, v, j, k) && before(
                                        v,
                                        j,
                                        u as int,
                                        i + 1,
                                    );
                                assert(aggregate_at(src.units, v, j, k) && before(
                                    v,
                                    j,
                                    u as int,
                                    i + 1,
                                ));
                                assert(v == u && j == i);
                            }
                        }
                        if types0.contains_key(k) {
                            assert(wanted_before(src.units, vars, u as int, i as int, 0, 0, k));
                            let w = choose|v: int, j: int| #[trigger]
                                aggregate_at(src.units, v, j, k) && before(v, j, u as int, i as int);
                            assert(aggregate_at(src.units, w.0, w.1, k) && before(
                                w.0,
                                w.1,
                                u as int,
                                i + 1,
                            ));
                        }
                        if aggregate && k == key {
                            assert(aggregate_at(src.units, u as int, i as int, k) && before(
                                u as int,
                                i as int,
                                u as int,
                                i + 1,
                            ));
                        }
                    }
                }
                i += 1;
            }
            proof {
                assert forall|k: usize| #[trigger]
                    types@.contains_key(k) <==> wanted_before(src.units, vars, u + 1, 0, 0, 0, k)
                        && built(src, k) is Some by {
                    if wanted_before(src.units, vars, u + 1, 0, 0, 0, k) {
                        let (v, j) = choose|v: int, j: int| #[trigger]
                            aggregate_at(src.units, v, j, k) && before(v, j, u + 1, 0);
                        assert(aggregate_at(src.units, v, j, k) && before(
                            v,
                            j,
                            u as int,
                            entries@.len() as int,
                        ));
                    }
                    if wanted_before(src.units, vars, u as int, entries@.len() as int, 0, 0, k) {
                        let (v, j) = choose|v: int, j: int| #[trigger]
                            aggregate_at(src.units, v, j, k) && before(
                                v,
                                j,
                                u as int,
                                entries@.len() as int,
                            );
                        assert(aggregate_at(src.units, v, j, k) && before(v, j, u + 1, 0));
                    }
                }
            }
            u += 1;
        }
        let ghost n = self.units@.len() as int;
        let mut a: usize = 0;
        while a < variables.len()
            invariant
                a <= variables@.len(),
                n == self.units@.len(),
                src == self.source(),
                src == reader.source(),
                vars == table_view(variables@),
                types_loaded(types@, src, vars, n, 0, a as int, 0),
                names_indexed(typenames@, types@),
            decreases variables@.len() - a,
        {
            let list = variables.value_at(a);
            let mut b: usize = 0;
            while b < list.len()
                invariant
                    a < variables@.len(),
                    b <= list@.len(),
                    *list == variables@[a as int].1,
                    n == self.units@.len(),
                    src == self.source(),
                    src == reader.source(),
                    vars == table_view(variables@),
                    types_loaded(types@, src, vars, n, 0, a as int, b as int),
                    names_indexed(typenames@, types@),
                decreases list@.len() - b,
            {
                let ghost types0 = types@;
                let key = list[b].typeref;
                assert(vars[a as int].1[b as int] == list@[b as int]@);
                load_type(&reader, key, &mut types, &mut typenames);
                proof {
                    assert forall|k: usize| #[trigger]
                        types@.contains_key(k) <==> wanted_before(
                            src.units,
                            vars,
                            n,
                            0,
                            a as int,
                            b + 1,
                            k,
                        ) && built(src, k) is Some by {
                        if wanted_before(src.units, vars, n, 0, a as int, b + 1, k) {
                            if !wanted_before(src.units, vars, n, 0, a as int, b as int, k) {
                                if exists|v: int, j: int| #[trigger]
                                    aggregate_at(src.units, v, j, k) && before(v, j, n, 0) {
                                } else {
                                    let (c, d) = choose|c: int, d: int| #[trigger]
                                        defined_at(vars, c, d, k) && before(c, d, a as int, b + 1);
                                    assert(defined_at(vars, c, d, k) && before(
                                        c,
                                        d,
                                        a as int,
                                        b + 1,
                                    ));
                                    assert(c == a && d == b);
                                }
                            }
                        }
                        if types0.contains_key(k) {
                            assert(wanted_before(src.units, vars, n, 0, a as int, b as int, k));
                            if exists|v: int, j: int| #[trigger]
                                aggregate_at(src.units, v, j, k) && before(v, j, n, 0) {
                            } else {
                                let w = choose|c: int, d: int| #[trigger]
                                    defined_at(vars, c, d, k) && before(c, d, a as int, b as int);
                                assert(defined_at(vars, w.0, w.1, k) && before(
                                    w.0,
                                    w.1,
                                    a as int,
                                    b + 1,
                                ));
                            }
                        }
                        if k == key {
                            assert(defined_at(vars, a as int, b as int, k) && before(
                                a as int,
                                b as int,
                                a as int,
                                b + 1,
                            ));
                        }
                    }
                }
                b += 1;
            }
            proof {
                assert forall|k: usize| #[trigger]
                    types@.contains_key(k) <==> wanted_before(src.units, vars, n, 0, a + 1, 0, k)
                        && built(src, k) is Some by {
                    if wanted_before(src.units, vars, n, 0, a + 1, 0, k) {
                        if exists|v: int, j: int| #[trigger]
                            aggregate_at(src.units, v, j, k) && before(v, j, n, 0) {
                        } else {
                            let (c, d) = choose|c: int, d: int| #[trigger]
                                defined_at(vars, c, d, k) && before(c, d, a + 1, 0);
                            assert(vars[a as int].1.len() == list@.len());
                            assert(defined_at(vars, c, d, k) && before(
                                c,
                                d,
                                a as int,
                                list@.len() as int,
                            ));
                        }
                    }
                    if wanted_before(src.units, vars, n, 0, a as int, list@.len() as int, k) {
                        if exists|v: int, j: int| #[trigger]
                            aggregate_at(src.units, v, j, k) && before(v, j, n, 0) {
                        } else {
                            let (c, d) = choose|c: int, d: int| #[trigger]
                                defined_at(vars, c, d, k) && before(
                                    c,
                                    d,
                                    a as int,
                                    list@.len() as int,
                                );
                            assert(defined_at(vars, c, d, k) && before(c, d, a + 1, 0));
                        }
                    }
                }
            }
            a += 1;
        }
        proof {
            assert forall|k: usize| #[trigger]
                types@.contains_key(k) <==> wanted(src.units, vars, k) && built(src, k)
                    is Some by {
                if wanted(src.units, vars, k) {
                    if exists|v: int, j: int| #[trigger] aggregate_at(src.units, v, j, k) {
                        let (v, j) = choose|v: int, j: int| #[trigger]
                            aggregate_at(src.units, v, j, k);
                        assert(aggregate_at(src.units, v, j, k) && before(v, j, n, 0));
                    } else {
                        let (c, d) = choose|c: int, d: int| #[trigger] defined_at(vars, c, d, k);
                        assert(defined_at(vars, c, d, k) && before(c, d, a as int, 0));
                    }
                }
                if wanted_before(src.units, vars, n, 0, a as int, 0, k) {
                    if exists|v: int, j: int| #[trigger]
                        aggregate_at(src.units, v, j, k) && before(v, j, n, 0) {
                        let (v, j) = choose|v: int, j: int| #[trigger]
                            aggregate_at(src.units, v, j, k) && before(v, j, n, 0);
                        assert(aggregate_at(src.units, v, j, k));
                    } else {
                        let (c, d) = choose|c: int, d: int| #[trigger]
                            defined_at(vars, c, d, k) && before(c, d, a as int, 0);
                        assert(defined_at(vars, c, d, k));
                    }
                }
            }
        }
        (types, typenames)
    }
}

/// The definitions among the first `n` of `list` whose type is among
/// `keys`, in their order.
pub open spec fn kept_definitions(list: Seq<VarInfoView>, keys: Set<usize>, n: int) -> Seq<
    VarInfoView,
>
    decreases n,
{
    if n <= 0 {
        Seq::<VarInfoView>::empty()
    } else {
        let kept = kept_definitions(list, keys, n - 1);
        if keys.contains(list[n - 1].typeref) {
            kept.push(list[n - 1])
        } else {
            kept
        }
    }
}

/// The first `n` variables of `table`, each with the definitions whose
/// type is among `keys`; a variable that keeps no definition is left out.
pub open spec fn resolved_table(table: Table, keys: Set<usize>, n: int) -> Table
    decreases n,
{
    if n <= 0 {
        Seq::<(Seq<char>, Seq<VarInfoView>)>::empty()
    } else {
        let kept = resolved_table(table, keys, n - 1);
        let definitions = kept_definitions(table[n - 1].1, keys, table[n - 1].1.len() as int);
        if definitions.len() > 0 {
            with_entry(kept, table[n - 1].0, definitions)
        } else {
            kept
        }
    }
}

/// The names of a table, in their order.
pub open spec fn table_names(table: Table) -> Seq<Seq<char>> {
    Seq::new(table.len(), |i: int| table[i].0)
}

/// The variables of `variables` with the definitions whose type `types`
/// holds.
pub fn retain_resolved(
    variables: &NameMap<Vec<VarInfo>>,
    types: &HashMap<usize, TypeInfo>,
) -> (r: NameMap<Vec<VarInfo>>)
    ensures
        table_view(r@) == resolved_table(
            table_view(variables@),
            types@.dom(),
            variables@.len() as int,
        ),
        typerefs_resolve(r@, types@),
        all_defined(r@),
{
    broadcast use vstd::std_specs::hash::group_hash_axioms;

    let ghost table = table_view(variables@);
    let ghost keys = types@.dom();
    let mut out: NameMap<Vec<VarInfo>> = NameMap::new();
    let mut a: usize = 0;
    assert(table_view(out@) =~= resolved_table(table, keys, 0));
    while a < variables.len()
        invariant
            a <= variables@.len(),
            table == table_view(variables@),
            keys == types@.dom(),
            table_view(out@) == resolved_table(table, keys, a as int),
            typerefs_resolve(out@, types@),
            all_defined(out@),
        decreases variables@.len() - a,
    {
        let list = variables.value_at(a);
        let ghost views = table[a as int].1;
        assert(views == definitions_view(list@));
        let mut kept: Vec<VarInfo> = Vec::new();
        let mut b: usize = 0;
        assert(definitions_view(kept@) =~= kept_definitions(views, keys, 0));
        while b < list.len()
            invariant
                b <= list@.len(),
                views == definitions_view(list@),
                keys == types@.dom(),
                definitions_view(kept@) == kept_definitions(views, keys, b as int),
                forall|j: int| 0 <= j < kept@.len() ==> types@.contains_key(
                    (#[trigger] kept@[j]).typeref,
                ),
            decreases list@.len() - b,
        {
            assert(views[b as int] == list@[b as int]@);
            if types.contains_key(&list[b].typeref) {
                let ghost before = definitions_view(kept@);
                let definition = list[b].duplicate();
                kept.push(definition);
                assert(definitions_view(kept@) =~= before.push(definition@));
            }
            b += 1;
        }
        if kept.len() > 0 {
            let ghost before = out@;
            let name = variables.name_at(a).clone();
            let ghost shown = kept;
            let _ = out.insert(name, kept);
            proof {
                crate::name_map::lemma_position_by_names(before, table_view(before), name@, 0);
                lemma_position(before, name@);
                let expected = with_entry(table_view(before), name@, definitions_view(shown@));
                assert(table_view(out@).len() == expected.len());
                assert forall|i: int| 0 <= i < expected.len() implies table_view(out@)[i]
                    == expected[i] by {}
                assert(table_view(out@) =~= expected);
                assert forall|i: int, j: int|
                    0 <= i < out@.len() && 0 <= j < out@[i].1@.len() implies types@.contains_key(
                    (#[trigger] out@[i].1@[j]).typeref,
                ) by {
                    if out@[i].1 != shown {
                        assert(out@[i] == before[i]);
                    }
                }
                assert forall|i: int| 0 <= i < out@.len() implies (#[trigger] out@[i]).1@.len()
                    > 0 by {
                    if out@[i].1 != shown {
                        assert(out@[i] == before[i]);
                    }
                }
            }
        }
        a += 1;
    }
    out
}

/// The names of the variables, in their order.
pub fn variable_names(variables: &NameMap<Vec<VarInfo>>) -> (r: Vec<String>)
    ensures
        texts(r@) == table_names(table_view(variables@)),
{
    let mut names: Vec<String> = Vec::new();
    let mut a: usize = 0;
    while a < variables.len()
        invariant
            a <= variables@.len(),
            names@.len() == a,
            forall|i: int| 0 <= i < a ==> names@[i]@ == variables@[i].0,
        decreases variables@.len() - a,
    {
        names.push(variables.name_at(a).clone());
        a += 1;
    }
    assert(texts(names@) =~= table_names(table_view(variables@)));
    names
}

/// What the types are built from once the units were walked: the classes
/// of the units are added to `classes`.
pub open spec fn walked_source(
    units: Seq<CompileUnit>,
    classes: Map<usize, crate::class_info::ClassInfoView>,
    big_endian: bool,
) -> Source {
    Source { units, classes: all_classes(classes, units, units.len() as int), big_endian }
}

/// Whether `data` is what the entries of `units` give. Its types are those
/// that are asked for and can be built, each with the value that the
/// builder gives it. Its variables are those that the walk finds, each with
/// the definitions whose type is among these types. Its readable names are
/// those of the variables that the walk finds. Its unit names are the
/// display names of the units, in their order.
pub open spec fn is_read_from(
    data: DebugData,
    units: Seq<CompileUnit>,
    classes: Map<usize, crate::class_info::ClassInfoView>,
    big_endian: bool,
) -> bool {
    let found = all_tables(units, units.len() as int);
    &&& types_complete(data.spec_types(), walked_source(units, classes, big_endian), found)
    &&& names_indexed(data.spec_typenames(), data.spec_types())
    &&& table_view(data.spec_variables()) == resolved_table(
        found,
        data.spec_types().dom(),
        found.len() as int,
    )
    &&& name_table_view(data.spec_demangled_names()) == demangled_table(
        table_names(found),
        found.len() as int,
    )
    &&& data.spec_unit_names().len() == units.len()
    &&& forall|u: int|
        0 <= u < units.len() ==> opt_text(#[trigger] data.spec_unit_names()[u])
            == unit_display_name(units[u].entries@)
}

impl DebugDataReader {
    /// Reads the entries of all units: finds the global variables, builds
    /// the types that are asked for, and gives each mangled name its
    /// readable form. A variable keeps the definitions whose type could be
    /// built, so that every definition in the result has its type in the
    /// type map.
    pub fn read_debug_info_entries(self) -> (r: DebugData)
        ensures
            typerefs_resolve(r.spec_variables(), r.spec_types()),
            all_defined(r.spec_variables()),
            is_read_from(r, self.units@, class_views(self.class_names@), self.big_endian),
            r.spec_sections() == self.sections@,
    {
        let mut reader = self;
        reader.unit_names = Vec::new();
        let variables = reader.load_variables();
        assert(reader.source() == walked_source(
            self.units@,
            class_views(self.class_names@),
            self.big_endian,
        ));
        assert forall|u: int| 0 <= u < self.units@.len() implies opt_text(
            #[trigger] reader.unit_names@[u],
        ) == unit_display_name(self.units@[u].entries@) by {
            assert(reader.unit_names@[u] == reader.unit_names@[0 + u]);
        }
        let (types, typenames) = reader.load_types(&variables);
        let varname_list = variable_names(&variables);
        assert(texts(varname_list@).len() == table_view(variables@).len());
        let demangled_names = demangle_cpp_varnames(&varname_list);
        let kept = retain_resolved(&variables, &types);
        let DebugDataReader { units: _, unit_names, sections, class_names: _, big_endian: _ } =
            reader;
        match DebugData::new(kept, types, typenames, demangled_names, unit_names, sections) {
            Some(data) => data,
            None => vstd::pervasive::unreached(),
        }
    }
}

} // verus!
