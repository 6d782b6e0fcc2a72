//! Readable names for the variables whose names are mangled.

use crate::entries::opt_text;
use crate::name_map::{with_entry, NameMap};
use crate::parse::{has_prefix, starts_with};
use crate::text::{chars_of, texts};
use vstd::prelude::*;

verus! {

/// The readable form of a mangled name of C++, without the parameters and
/// without the return type of a function; `None` for a name that is no
/// mangled name.
pub uninterp spec fn demangled_name(mangled: Seq<char>) -> Option<Seq<char>>;

/// `cpp_demangle::Symbol::new` and then `Symbol::demangle_with_options`,
/// with the options `no_params` and `no_return_type`: the readable form of
/// `name`, or `None` where the name cannot be parsed or written out.
#[verifier::external_body]
fn demangle(name: &str) -> (r: Option<String>)
    ensures
        opt_text(r) == demangled_name(name@),
{
    let options = cpp_demangle::DemangleOptions::new().no_params().no_return_type();
    match cpp_demangle::Symbol::new(name) {
        Ok(symbol) => symbol.demangle_with_options(&options).ok(),
        Err(_) => None,
    }
}

/// Whether a name is tried as a mangled name: it begins with `_Z`.
pub open spec fn looks_mangled(name: Seq<char>) -> bool {
    has_prefix(name, seq!['_', 'Z'])
}

/// Whether a readable name names a variable: it holds no space, and does
/// not begin with `{vtable`.
pub open spec fn names_variable(demangled: Seq<char>) -> bool {
    !demangled.contains(' ') && !has_prefix(demangled, seq!['{', 'v', 't', 'a', 'b', 'l', 'e'])
}

/// The readable name under which `name` is found: that of a name that
/// looks mangled, where it names a variable.
pub open spec fn readable_name(name: Seq<char>, demangled: Option<Seq<char>>) -> Option<Seq<char>> {
    match demangled {
        Some(d) => if looks_mangled(name) && names_variable(d) {
            Some(d)
        } else {
            None
        },
        None => None,
    }
}

/// The mangled name behind each readable name, for the first `n` names of
/// `names`: a later name takes the place of an earlier one with the same
/// readable name.
pub open spec fn demangled_table(names: Seq<Seq<char>>, n: int) -> Seq<(Seq<char>, Seq<char>)>
    decreases n,
{
    if n <= 0 {
        Seq::<(Seq<char>, Seq<char>)>::empty()
    } else {
        let before = demangled_table(names, n - 1);
        match readable_name(names[n - 1], demangled_name(names[n - 1])) {
            Some(d) => with_entry(before, d, names[n - 1]),
            None => before,
        }
    }
}

/// The mathematical value of a table of names.
pub open spec fn name_table_view(table: Seq<(Seq<char>, String)>) -> Seq<(Seq<char>, Seq<char>)> {
    Seq::new(table.len(), |i: int| (table[i].0, table[i].1@))
}

/// Whether the name `name`, with the readable form `demangled`, is entered
/// into the table of readable names, and under which name.
pub fn readable<'a>(name: &str, demangled: &'a Option<String>) -> (r: Option<&'a String>)
    ensures
        match r {
            Some(d) => readable_name(name@, opt_text(*demangled)) == Some(d@)
                && *demangled == Some(*d),
            None => readable_name(name@, opt_text(*demangled)) is None,
        },
{
    let d = match demangled {
        Some(d) => d,
        None => {
            return None;
        },
    };
    let mut mark: Vec<char> = Vec::new();
    mark.push('_');
    mark.push('Z');
    assert(mark@ =~= seq!['_', 'Z']);
    if !starts_with(&chars_of(name), &mark) {
        return None;
    }
    let chars = chars_of(d.as_str());
    let mut i: usize = 0;
    while i < chars.len()
        invariant
            i <= chars@.len(),
            chars@ == d@,
            *demangled == Some(*d),
            looks_mangled(name@),
            forall|j: int| 0 <= j < i ==> chars@[j] != ' ',
        decreases chars@.len() - i,
    {
        if chars[i] == ' ' {
            assert(chars@[i as int] == ' ');
            assert(chars@.contains(' '));
            return None;
        }
        i += 1;
    }
    let mut table: Vec<char> = Vec::new();
    table.push('{');
    table.push('v');
    table.push('t');
    table.push('a');
    table.push('b');
    table.push('l');
    table.push('e');
    assert(table@ =~= seq!['{', 'v', 't', 'a', 'b', 'l', 'e']);
    if starts_with(&chars, &table) {
        return None;
    }
    Some(d)
}

/// The table of readable names for the variables `input`: each name that
/// begins with `_Z` and has a readable form that names a variable is found
/// under that form.
pub fn demangle_cpp_varnames(input: &Vec<String>) -> (r: NameMap<String>)
    ensures
        name_table_view(r@) == demangled_table(texts(input@), input@.len() as int),
{
    let ghost names = texts(input@);
    let mut demangled_symbols: NameMap<String> = NameMap::new();
    assert(name_table_view(demangled_symbols@) =~= demangled_table(names, 0));
    let mut i: usize = 0;
    while i < input.len()
        invariant
            i <= input@.len(),
            names == texts(input@),
            name_table_view(demangled_symbols@) == demangled_table(names, i as int),
        decreases input@.len() - i,
    {
        let varname = &input[i];
        assert(names[i as int] == varname@);
        let demangled = demangle(varname.as_str());
        if let Some(d) = readable(varname.as_str(), &demangled) {
            let ghost before = demangled_symbols@;
            proof {
                crate::name_map::lemma_position_by_names(before, name_table_view(before), d@, 0);
            }
            let key = d.clone();
            let value = varname.clone();
            let _ = demangled_symbols.insert(key, value);
            proof {
                crate::name_map::lemma_position(before, d@);
                let expected = with_entry(name_table_view(before), d@, varname@);
                assert(demangled_symbols@ == with_entry(before, d@, value));
                assert(name_table_view(demangled_symbols@).len() == expected.len());
                assert forall|j: int| 0 <= j < expected.len() implies name_table_view(
                    demangled_symbols@,
                )[j] == expected[j] by {}
                assert(name_table_view(demangled_symbols@) =~= expected);
            }
        }
        i += 1;
    }
    demangled_symbols
}

} // verus!
