//! The walk over the entries of each compile unit that finds the global
//! variables, with the functions and namespaces around them, and the classes.

use crate::class_info::{ClassInfo, ClassInfoView};
use crate::entries::{clone_opt, opt_text, CompileUnit, DebugEntry, EntryTag};
use crate::name_map::{lemma_position, lemma_position_by_names, position, NameMap};
use crate::text::{join_range, joined, texts};
use crate::types::{VarInfo, VarInfoView};
use std::collections::HashMap;
use vstd::prelude::*;

verus! {

/// Why a variable entry with an address yields no variable.
#[derive(Clone, Copy, Debug, PartialEq, Eq, Structural)]
pub enum ExtractError {
    /// Neither the entry nor the entry it points to has a name.
    MissingName,
    /// Neither the entry nor the entry it points to has a type.
    MissingType,
}

/// The entries above an entry, outermost first, each with its tag and, for a
/// namespace or a function, its name.
pub type Context = Seq<(EntryTag, Option<Seq<char>>)>;

/// The mathematical value of a context stack.
pub open spec fn context_view(c: Seq<(EntryTag, Option<String>)>) -> Context {
    Seq::new(c.len(), |i: int| (c[i].0, opt_text(c[i].1)))
}

/// The name of the innermost function of the context; `None` where the
/// context holds no function, or the innermost one has no name.
pub open spec fn innermost_function(ctx: Context) -> Option<Seq<char>>
    decreases ctx.len(),
{
    if ctx.len() == 0 {
        None
    } else if ctx.last().0 == EntryTag::Subprogram {
        ctx.last().1
    } else {
        innermost_function(ctx.drop_last())
    }
}

/// The names of the namespaces of the context, outermost first.
pub open spec fn namespace_names(ctx: Context) -> Seq<Seq<char>>
    decreases ctx.len(),
{
    if ctx.len() == 0 {
        Seq::<Seq<char>>::empty()
    } else {
        let outer = namespace_names(ctx.drop_last());
        match ctx.last() {
            (EntryTag::Namespace, Some(name)) => outer.push(name),
            _ => outer,
        }
    }
}

/// The name of the innermost function of the context.
fn function_of_context(context: &Vec<(EntryTag, Option<String>)>) -> (r: Option<String>)
    ensures
        opt_text(r) == innermost_function(context_view(context@)),
{
    let ghost ctx = context_view(context@);
    let mut i: usize = context.len();
    assert(ctx.take(i as int) =~= ctx);
    while i > 0
        invariant
            i <= context@.len(),
            ctx == context_view(context@),
            innermost_function(ctx.take(i as int)) == innermost_function(ctx),
        decreases i,
    {
        proof {
            assert(ctx.take(i as int).drop_last() =~= ctx.take(i - 1));
            assert(ctx.take(i as int).last() == ctx[i - 1]);
        }
        i -= 1;
        if context[i].0 == EntryTag::Subprogram {
            return clone_opt(&context[i].1);
        }
    }
    assert(ctx.take(0).len() == 0);
    None
}

/// The function and the namespaces around an entry with the context
/// `context`: the name of the innermost function, and the names of all
/// namespaces, outermost first.
pub fn get_varinfo_from_context(context: &Vec<(EntryTag, Option<String>)>) -> (r: (
    Option<String>,
    Vec<String>,
))
    ensures
        opt_text(r.0) == innermost_function(context_view(context@)),
        texts(r.1@) == namespace_names(context_view(context@)),
{
    let ghost ctx = context_view(context@);
    let function = function_of_context(context);
    let mut namespaces: Vec<String> = Vec::new();
    let mut j: usize = 0;
    while j < context.len()
        invariant
            j <= context@.len(),
            ctx == context_view(context@),
            texts(namespaces@) == namespace_names(ctx.take(j as int)),
        decreases context@.len() - j,
    {
        proof {
            assert(ctx.take(j + 1).drop_last() =~= ctx.take(j as int));
            assert(ctx.take(j + 1).last() == ctx[j as int]);
        }
        let ghost before = namespaces@;
        if context[j].0 == EntryTag::Namespace {
            match &context[j].1 {
                Some(name) => {
                    namespaces.push(name.clone());
                    assert(texts(namespaces@) =~= texts(before).push(name@));
                },
                None => {},
            }
        }
        j += 1;
    }
    assert(ctx.take(ctx.len() as int) =~= ctx);
    (function, namespaces)
}

/// The entry that a link leads to: the entry at that position, where the
/// unit has one.
pub open spec fn linked(entries: Seq<DebugEntry>, link: Option<usize>) -> Option<DebugEntry> {
    match link {
        Some(i) => if i < entries.len() {
            Some(entries[i as int])
        } else {
            None
        },
        None => None,
    }
}

/// `a` where it holds a value, else `b`.
pub open spec fn first_of<T>(a: Option<T>, b: Option<T>) -> Option<T> {
    if a is Some {
        a
    } else {
        b
    }
}

/// The name and the type of the variable that `entry` describes. Where the
/// entry points to a specification, both come from there alone. Else, where
/// it points to an abstract origin, each comes from the entry itself, or
/// from the origin where the entry lacks it. Else both come from the entry.
pub open spec fn name_and_type(entries: Seq<DebugEntry>, entry: DebugEntry) -> (
    Option<Seq<char>>,
    Option<usize>,
) {
    match linked(entries, entry.specification) {
        Some(target) => (opt_text(target.name), target.typeref),
        None => match linked(entries, entry.abstract_origin) {
            Some(origin) => (
                first_of(opt_text(entry.name), opt_text(origin.name)),
                first_of(entry.typeref, origin.typeref),
            ),
            None => (opt_text(entry.name), entry.typeref),
        },
    }
}

/// The global variable that `entry` describes: its name, the key of its
/// type and its address. An entry without an address describes a local
/// variable, which is no error.
pub open spec fn spec_global_variable(entries: Seq<DebugEntry>, entry: DebugEntry) -> Result<
    Option<(Seq<char>, usize, u64)>,
    ExtractError,
> {
    match entry.location {
        None => Ok(None),
        Some(address) => match name_and_type(entries, entry) {
            (None, _) => Err(ExtractError::MissingName),
            (Some(_), None) => Err(ExtractError::MissingType),
            (Some(name), Some(typeref)) => Ok(Some((name, typeref, address))),
        },
    }
}

/// The entry that a link leads to.
fn follow<'a>(unit: &'a CompileUnit, link: Option<usize>) -> (r: Option<&'a DebugEntry>)
    ensures
        match r {
            Some(e) => linked(unit.entries@, link) == Some(*e),
            None => linked(unit.entries@, link) is None,
        },
{
    match link {
        Some(i) => if i < unit.entries.len() {
            Some(&unit.entries[i])
        } else {
            None
        },
        None => None,
    }
}

/// The global variable that `entry`, an entry of `unit`, describes.
pub fn get_global_variable(entry: &DebugEntry, unit: &CompileUnit) -> (r: Result<
    Option<(String, usize, u64)>,
    ExtractError,
>)
    ensures
        match (r, spec_global_variable(unit.entries@, *entry)) {
            (Ok(Some(found)), Ok(Some(expected))) => found.0@ == expected.0 && found.1
                == expected.1 && found.2 == expected.2,
            (Ok(None), Ok(None)) => true,
            (Err(e), Err(expected)) => e == expected,
            _ => false,
        },
{
    let address = match entry.location {
        Some(address) => address,
        None => {
            return Ok(None);
        },
    };
    let (name, typeref) = match follow(unit, entry.specification) {
        Some(target) => (clone_opt(&target.name), target.typeref),
        None => match follow(unit, entry.abstract_origin) {
            Some(origin) => {
                let name = match &entry.name {
                    Some(n) => Some(n.clone()),
                    None => clone_opt(&origin.name),
                };
                let typeref = match entry.typeref {
                    Some(t) => Some(t),
                    None => origin.typeref,
                };
                (name, typeref)
            },
            None => (clone_opt(&entry.name), entry.typeref),
        },
    };
    match name {
        None => Err(ExtractError::MissingName),
        Some(name) => match typeref {
            None => Err(ExtractError::MissingType),
            Some(typeref) => Ok(Some((name, typeref, address))),
        },
    }
}

/// The name that the context keeps of an entry: that of a namespace or of
/// a function, and of no other entry.
pub open spec fn captured_name(entry: DebugEntry) -> Option<Seq<char>> {
    if entry.tag == EntryTag::Namespace || entry.tag == EntryTag::Subprogram {
        opt_text(entry.name)
    } else {
        None
    }
}

/// The depth of the entry at `i` below the root of its unit: the sum of the
/// depth deltas of the entries after the root up to it.
pub open spec fn depth_after(entries: Seq<DebugEntry>, i: int) -> int
    decreases i,
{
    if i <= 0 {
        0
    } else {
        depth_after(entries, i - 1) + entries[i].depth_delta
    }
}

/// The context after an entry at depth `depth` was met in the context
/// `ctx`: what `ctx` holds above that depth, and the entry.
pub open spec fn next_context(ctx: Context, depth: int, entry: DebugEntry) -> Context {
    let keep = depth - 1;
    let kept = if keep <= 0 {
        Seq::<(EntryTag, Option<Seq<char>>)>::empty()
    } else if keep >= ctx.len() {
        ctx
    } else {
        ctx.take(keep)
    };
    kept.push((entry.tag, captured_name(entry)))
}

/// The context of the entry at `i`: the entries above it and the entry
/// itself.
pub open spec fn context_after(entries: Seq<DebugEntry>, i: int) -> Context
    decreases i,
{
    if i <= 0 {
        Seq::<(EntryTag, Option<Seq<char>>)>::empty()
    } else {
        next_context(context_after(entries, i - 1), depth_after(entries, i), entries[i])
    }
}

/// The variables by name, each name with its definitions in the order in
/// which they were met.
pub type Table = Seq<(Seq<char>, Seq<VarInfoView>)>;

/// The mathematical value of a list of definitions.
pub open spec fn definitions_view(list: Seq<VarInfo>) -> Seq<VarInfoView> {
    Seq::new(list.len(), |i: int| list[i]@)
}

/// The mathematical value of a variable table.
pub open spec fn table_view(table: Seq<(Seq<char>, Vec<VarInfo>)>) -> Table {
    Seq::new(table.len(), |i: int| (table[i].0, definitions_view(table[i].1@)))
}

/// `table` with one more definition of `name`: behind the definitions that
/// the name has, or under a new last name.
pub open spec fn add_record(table: Table, name: Seq<char>, definition: VarInfoView) -> Table {
    match position(table, name) {
        Some(i) => table.update(i, (name, table[i].1.push(definition))),
        None => table.push((name, seq![definition])),
    }
}

/// The definition that the entry at `i` gives: one for a variable entry
/// that describes a global variable, with the function and the namespaces
/// of its context.
pub open spec fn record_at(entries: Seq<DebugEntry>, unit_idx: usize, i: int) -> Option<
    (Seq<char>, VarInfoView),
> {
    if entries[i].tag == EntryTag::Variable {
        match spec_global_variable(entries, entries[i]) {
            Ok(Some((name, typeref, address))) => Some(
                (
                    name,
                    VarInfoView {
                        address,
                        typeref,
                        unit_idx,
                        function: innermost_function(context_after(entries, i)),
                        namespaces: namespace_names(context_after(entries, i)),
                    },
                ),
            ),
            _ => None,
        }
    } else {
        None
    }
}

/// `table` with the definitions that the entries of a unit give, from the
/// first entry after the root up to the one before `n`.
pub open spec fn unit_table(table: Table, entries: Seq<DebugEntry>, unit_idx: usize, n: int) -> Table
    decreases n,
{
    if n <= 1 {
        table
    } else {
        let before = unit_table(table, entries, unit_idx, n - 1);
        match record_at(entries, unit_idx, n - 1) {
            Some((name, definition)) => add_record(before, name, definition),
            None => before,
        }
    }
}

/// The table of the variables of the first `n` units.
pub open spec fn all_tables(units: Seq<CompileUnit>, n: int) -> Table
    decreases n,
{
    if n <= 0 {
        Seq::<(Seq<char>, Seq<VarInfoView>)>::empty()
    } else {
        unit_table(
            all_tables(units, n - 1),
            units[n - 1].entries@,
            (n - 1) as usize,
            units[n - 1].entries@.len() as int,
        )
    }
}

/// The name under which a class without a name is kept.
pub open spec fn unknown_class() -> Seq<char> {
    "unknown_class"@
}

/// What is kept of the class entry at `i`: its name, no linkage name, the
/// names of the namespaces around it joined by `::`, and whether it is a
/// declaration.
pub open spec fn class_at(entries: Seq<DebugEntry>, i: int) -> ClassInfoView {
    ClassInfoView {
        name: match entries[i].name {
            Some(name) => name@,
            None => unknown_class(),
        },
        linkage_name: Seq::<char>::empty(),
        namespace: joined(namespace_names(context_after(entries, i)), "::"@),
        is_declaration: entries[i].declaration == Some(true),
    }
}

/// `classes` with what is kept of the class entries of a unit, from the
/// first entry after the root up to the one before `n`, each under the
/// offset of its entry.
pub open spec fn unit_classes(
    classes: Map<usize, ClassInfoView>,
    entries: Seq<DebugEntry>,
    n: int,
) -> Map<usize, ClassInfoView>
    decreases n,
{
    if n <= 1 {
        classes
    } else {
        let before = unit_classes(classes, entries, n - 1);
        if entries[n - 1].tag == EntryTag::ClassType {
            before.insert(entries[n - 1].offset, class_at(entries, n - 1))
        } else {
            before
        }
    }
}

/// `classes` with what is kept of the class entries of the first `n` units.
pub open spec fn all_classes(
    classes: Map<usize, ClassInfoView>,
    units: Seq<CompileUnit>,
    n: int,
) -> Map<usize, ClassInfoView>
    decreases n,
{
    if n <= 0 {
        classes
    } else {
        unit_classes(
            all_classes(classes, units, n - 1),
            units[n - 1].entries@,
            units[n - 1].entries@.len() as int,
        )
    }
}

/// The mathematical value of a class table.
pub open spec fn class_views(classes: Map<usize, ClassInfo>) -> Map<usize, ClassInfoView> {
    Map::new(|k: usize| classes.contains_key(k), |k: usize| classes[k]@)
}

/// The display name of a unit: the name of its root entry, where that is a
/// compile unit or a partial unit and has a name.
pub open spec fn unit_display_name(entries: Seq<DebugEntry>) -> Option<Seq<char>> {
    if entries.len() > 0 && (entries[0].tag == EntryTag::CompileUnit || entries[0].tag
        == EntryTag::PartialUnit) {
        opt_text(entries[0].name)
    } else {
        None
    }
}

/// Adds one definition of `name` to `variables`.
fn add_variable(variables: &mut NameMap<Vec<VarInfo>>, name: String, definition: VarInfo)
    ensures
        table_view(final(variables)@) == add_record(
            table_view(old(variables)@),
            name@,
            definition@,
        ),
{
    proof {
        lemma_position_by_names(old(variables)@, table_view(old(variables)@), name@, 0);
        lemma_position(old(variables)@, name@);
    }
    match variables.get_index_of(name.as_str()) {
        Some(p) => {
            let mut list = variables.set_at(p, Vec::new());
            list.push(definition);
            let _ = variables.set_at(p, list);
            proof {
                let expected = add_record(table_view(old(variables)@), name@, definition@);
                assert(table_view(variables@).len() == expected.len());
                assert forall|i: int| 0 <= i < expected.len() implies table_view(variables@)[i]
                    == expected[i] by {
                    if i == p {
                        assert(table_view(variables@)[i].1 =~= expected[i].1);
                    }
                }
                assert(table_view(variables@) =~= expected);
            }
        },
        None => {
            let mut list: Vec<VarInfo> = Vec::new();
            list.push(definition);
            let _ = variables.insert(name, list);
            proof {
                let expected = add_record(table_view(old(variables)@), name@, definition@);
                assert(table_view(variables@).len() == expected.len());
                assert forall|i: int| 0 <= i < expected.len() implies table_view(variables@)[i]
                    == expected[i] by {
                    if i == old(variables)@.len() {
                        assert(table_view(variables@)[i].1 =~= expected[i].1);
                    }
                }
                assert(table_view(variables@) =~= expected);
            }
        },
    }
}

/// Brings the context stack to the entry `entry`, met at depth `depth`.
fn enter(context: &mut Vec<(EntryTag, Option<String>)>, depth: i128, entry: &DebugEntry)
    ensures
        context_view(final(context)@) == next_context(
            context_view(old(context)@),
            depth as int,
            *entry,
        ),
{
    let ghost before = context_view(context@);
    if depth <= 1 {
        context.truncate(0);
    } else if depth - 1 < context.len() as i128 {
        context.truncate((depth - 1) as usize);
    }
    let name = if entry.tag == EntryTag::Namespace || entry.tag == EntryTag::Subprogram {
        clone_opt(&entry.name)
    } else {
        None
    };
    context.push((entry.tag, name));
    assert(context_view(context@) =~= next_context(before, depth as int, *entry));
}

/// Walks the entries of one unit after its root, in their order: keeps the
/// context, adds to `variables` each global variable that a variable entry
/// describes, and puts into `class_names` what is kept of each class entry.
/// An entry that fails to give its variable is passed over.
fn walk_unit(
    unit: &CompileUnit,
    unit_idx: usize,
    variables: &mut NameMap<Vec<VarInfo>>,
    class_names: &mut HashMap<usize, ClassInfo>,
)
    ensures
        table_view(final(variables)@) == unit_table(
            table_view(old(variables)@),
            unit.entries@,
            unit_idx,
            unit.entries@.len() as int,
        ),
        class_views(final(class_names)@) == unit_classes(
            class_views(old(class_names)@),
            unit.entries@,
            unit.entries@.len() as int,
        ),
{
    broadcast use vstd::std_specs::hash::group_hash_axioms;

    let ghost entries = unit.entries@;
    let ghost table0 = table_view(variables@);
    let ghost classes0 = class_views(class_names@);
    let mut depth: i128 = 0;
    let mut context: Vec<(EntryTag, Option<String>)> = Vec::new();
    let mut i: usize = 1;
    assert(context_view(context@) =~= context_after(entries, 0));
    while i < unit.entries.len()
        invariant
            1 <= i,
            i <= entries.len() || i == 1,
            entries == unit.entries@,
            depth == depth_after(entries, i - 1),
            -(i - 1) * 0x8000_0000_0000_0000 <= depth <= (i - 1) * 0x8000_0000_0000_0000,
            context_view(context@) == context_after(entries, i - 1),
            table_view(variables@) == unit_table(table0, entries, unit_idx, i as int),
            class_views(class_names@) == unit_classes(classes0, entries, i as int),
        decreases entries.len() - i,
    {
        let entry = &unit.entries[i];
        depth = depth + entry.depth_delta as i128;
        enter(&mut context, depth, entry);
        if entry.tag == EntryTag::Variable {
            match get_global_variable(entry, unit) {
                Ok(Some((name, typeref, address))) => {
                    let (function, namespaces) = get_varinfo_from_context(&context);
                    let definition = VarInfo { address, typeref, unit_idx, function, namespaces };
                    add_variable(variables, name, definition);
                },
                Ok(None) => {},
                Err(_) => {},
            }
        }
        if entry.tag == EntryTag::ClassType {
            let is_declaration = match entry.declaration {
                Some(d) => d,
                None => false,
            };
            let class_name = match &entry.name {
                Some(name) => name.clone(),
                None => "unknown_class".to_owned(),
            };
            let (_, namespaces) = get_varinfo_from_context(&context);
            let ghost all = texts(namespaces@);
            assert(all.subrange(0, all.len() as int) =~= all);
            let namespace = join_range(&namespaces, "::", 0, namespaces.len());
            let ghost before = class_names@;
            let class = ClassInfo::new(class_name, String::new(), namespace, is_declaration);
            let _ = class_names.insert(entry.offset, class);
            assert(class_views(class_names@) =~= class_views(before).insert(
                entry.offset,
                class_at(entries, i as int),
            ));
        }
        i += 1;
    }
}

/// What the walk over the entries works on and leaves behind.
pub struct DebugDataReader {
    /// The compile units with their entries.
    pub units: Vec<CompileUnit>,
    /// The display name of each unit that was walked.
    pub unit_names: Vec<Option<String>>,
    /// The address range of each section.
    pub sections: NameMap<(u64, u64)>,
    /// What is kept of each class, under the offset of its entry.
    pub class_names: HashMap<usize, ClassInfo>,
    /// Whether the program stores the highest byte of a number first.
    pub big_endian: bool,
}

impl DebugDataReader {
    /// Walks every unit and returns the table of the global variables. The
    /// display name of each unit is added to the unit names, and what is
    /// kept of each class to the class table.
    pub fn load_variables(&mut self) -> (variables: NameMap<Vec<VarInfo>>)
        ensures
            table_view(variables@) == all_tables(old(self).units@, old(self).units@.len() as int),
            class_views(final(self).class_names@) == all_classes(
                class_views(old(self).class_names@),
                old(self).units@,
                old(self).units@.len() as int,
            ),
            final(self).units == old(self).units,
            final(self).sections == old(self).sections,
            final(self).big_endian == old(self).big_endian,
            final(self).unit_names@.len() == old(self).unit_names@.len() + old(self).units@.len(),
            forall|i: int|
                0 <= i < old(self).unit_names@.len() ==> final(self).unit_names@[i] == old(
                    self,
                ).unit_names@[i],
            forall|u: int|
                0 <= u < old(self).units@.len() ==> opt_text(
                    #[trigger] final(self).unit_names@[old(self).unit_names@.len() + u],
                ) == unit_display_name(old(self).units@[u].entries@),
    {
        let mut variables: NameMap<Vec<VarInfo>> = NameMap::new();
        let ghost names0 = self.unit_names@;
        let ghost classes0 = class_views(self.class_names@);
        assert(table_view(variables@) =~= all_tables(self.units@, 0));
        let mut u: usize = 0;
        while u < self.units.len()
            invariant
                u <= self.units@.len(),
                self.units == old(self).units,
                self.sections == old(self).sections,
                self.big_endian == old(self).big_endian,
                names0 == old(self).unit_names@,
                classes0 == class_views(old(self).class_names@),
                table_view(variables@) == all_tables(self.units@, u as int),
                class_views(self.class_names@) == all_classes(classes0, self.units@, u as int),
                self.unit_names@.len() == names0.len() + u,
                forall|i: int| 0 <= i < names0.len() ==> self.unit_names@[i] == names0[i],
                forall|k: int|
                    0 <= k < u ==> opt_text(#[trigger] self.unit_names@[names0.len() + k])
                        == unit_display_name(self.units@[k].entries@),
            decreases self.units@.len() - u,
        {
            let unit = &self.units[u];
            let display_name = if unit.entries.len() > 0 && (unit.entries[0].tag
                == EntryTag::CompileUnit || unit.entries[0].tag == EntryTag::PartialUnit) {
                clone_opt(&unit.entries[0].name)
            } else {
                None
            };
            self.unit_names.push(display_name);
            walk_unit(&self.units[u], u, &mut variables, &mut self.class_names);
            u += 1;
        }
        variables
    }
}

} // verus!
