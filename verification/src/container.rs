//! The container of the program: its sections, its symbol table and its
//! byte order, and the conditions under which it can be loaded.

use crate::entries::{opt_text, CompileUnit};
use crate::extract::DebugDataReader;
use crate::pipeline::is_read_from;
use crate::types::{all_defined, typerefs_resolve};
use crate::name_map::{with_entry, NameMap};
use crate::symbol::{lemma_wrapping_add, wrap};
use crate::types::DebugData;
use object::{Object, ObjectSection, ObjectSymbol, SymbolKind};
use std::collections::HashMap;
use vstd::prelude::*;

verus! {

/// A section as the container describes it.
#[derive(Clone, Debug)]
pub struct RawSection {
    /// The name, where it can be read.
    pub name: Option<String>,
    pub address: u64,
    pub size: u64,
}

/// The mathematical value of a [`RawSection`].
pub struct RawSectionView {
    pub name: Option<Seq<char>>,
    pub address: u64,
    pub size: u64,
}

impl View for RawSection {
    type V = RawSectionView;

    open spec fn view(&self) -> RawSectionView {
        RawSectionView { name: opt_text(self.name), address: self.address, size: self.size }
    }
}

/// A symbol as the symbol table of the container describes it.
#[derive(Clone, Debug)]
pub struct RawSymbol {
    /// The name, where it can be read.
    pub name: Option<String>,
    pub address: u64,
    pub is_global: bool,
    pub is_definition: bool,
    /// Whether the symbol stands for a data object.
    pub is_data: bool,
}

/// The mathematical value of a [`RawSymbol`].
pub struct RawSymbolView {
    pub name: Option<Seq<char>>,
    pub address: u64,
    pub is_global: bool,
    pub is_definition: bool,
    pub is_data: bool,
}

impl View for RawSymbol {
    type V = RawSymbolView;

    open spec fn view(&self) -> RawSymbolView {
        RawSymbolView {
            name: opt_text(self.name),
            address: self.address,
            is_global: self.is_global,
            is_definition: self.is_definition,
            is_data: self.is_data,
        }
    }
}

/// The sections of the container that the bytes `data` hold, in their
/// order; or why the bytes are no container.
pub uninterp spec fn container_sections(data: Seq<u8>) -> Result<Seq<RawSectionView>, Seq<char>>;

/// The symbols of the container that the bytes `data` hold, in the order
/// of its symbol table; or why the bytes are no container.
pub uninterp spec fn container_symbols(data: Seq<u8>) -> Result<Seq<RawSymbolView>, Seq<char>>;

/// Whether the container that the bytes `data` hold is little-endian; or
/// why the bytes are no container.
pub uninterp spec fn container_little_endian(data: Seq<u8>) -> Result<bool, Seq<char>>;

/// The values of the sections that were read, or the text of the error.
pub open spec fn sections_view(r: Result<Vec<RawSection>, String>) -> Result<
    Seq<RawSectionView>,
    Seq<char>,
> {
    match r {
        Ok(sections) => Ok(Seq::new(sections@.len(), |i: int| sections@[i]@)),
        Err(cause) => Err(cause@),
    }
}

/// The values of the symbols that were read, or the text of the error.
pub open spec fn symbols_view(r: Result<Vec<RawSymbol>, String>) -> Result<
    Seq<RawSymbolView>,
    Seq<char>,
> {
    match r {
        Ok(symbols) => Ok(Seq::new(symbols@.len(), |i: int| symbols@[i]@)),
        Err(cause) => Err(cause@),
    }
}

/// The value of the byte order that was read, or the text of the error.
pub open spec fn byte_order_view(r: Result<bool, String>) -> Result<bool, Seq<char>> {
    match r {
        Ok(little) => Ok(little),
        Err(cause) => Err(cause@),
    }
}

/// `object::File::parse` and then `Object::sections`: each section of the
/// container with its name, its address and its size; or the text of the
/// error with which the bytes were refused.
#[verifier::external_body]
fn read_sections(data: &[u8]) -> (r: Result<Vec<RawSection>, String>)
    ensures
        sections_view(r) == container_sections(data@),
{
    match object::File::parse(data) {
        Ok(file) => Ok(
            file.sections().map(
                |s| RawSection {
                    name: s.name().ok().map(str::to_string),
                    address: s.address(),
                    size: s.size(),
                },
            ).collect(),
        ),
        Err(e) => Err(e.to_string()),
    }
}

/// `object::File::parse` and then `Object::symbols`: each symbol of the
/// symbol table with its name, its address, and whether it is global, a
/// definition, and a data object; or the text of the error with which the
/// bytes were refused.
#[verifier::external_body]
fn read_symbols(data: &[u8]) -> (r: Result<Vec<RawSymbol>, String>)
    ensures
        symbols_view(r) == container_symbols(data@),
{
    match object::File::parse(data) {
        Ok(file) => Ok(
            file.symbols().map(
                |s| RawSymbol {
                    name: s.name().ok().map(str::to_string),
                    address: s.address(),
                    is_global: s.is_global(),
                    is_definition: s.is_definition(),
                    is_data: matches!(s.kind(), SymbolKind::Data),
                },
            ).collect(),
        ),
        Err(e) => Err(e.to_string()),
    }
}

/// `object::File::parse` and then `Object::is_little_endian`: whether the
/// container is little-endian; or the text of the error with which the
/// bytes were refused.
#[verifier::external_body]
fn read_byte_order(data: &[u8]) -> (r: Result<bool, String>)
    ensures
        byte_order_view(r) == container_little_endian(data@),
{
    match object::File::parse(data) {
        Ok(file) => Ok(file.is_little_endian()),
        Err(e) => Err(e.to_string()),
    }
}

/// The name of the section that holds the debug information.
pub open spec fn debug_info_name() -> Seq<char> {
    ".debug_info"@
}

/// Whether one of the sections is the one that holds the debug
/// information.
pub open spec fn has_debug_info(sections: Seq<RawSectionView>) -> bool {
    exists|i: int| 0 <= i < sections.len() && (#[trigger] sections[i]).name == Some(
        debug_info_name(),
    )
}

/// The address ranges of the first `n` sections: each section with an
/// address, a size and a name, under its name, from its address up to the
/// address behind it as 64 bits hold it.
pub open spec fn spec_elf_sections(sections: Seq<RawSectionView>, n: int) -> Seq<
    (Seq<char>, (u64, u64)),
>
    decreases n,
{
    if n <= 0 {
        Seq::<(Seq<char>, (u64, u64))>::empty()
    } else {
        let before = spec_elf_sections(sections, n - 1);
        let section = sections[n - 1];
        match section.name {
            Some(name) => if section.address != 0 && section.size != 0 {
                with_entry(
                    before,
                    name,
                    (section.address, wrap(section.address + section.size)),
                )
            } else {
                before
            },
            None => before,
        }
    }
}

/// The global data symbols among the first `n` symbols: the name and the
/// address of each symbol that is global, a definition and a data object,
/// and has an address and a name.
pub open spec fn spec_symbol_table(symbols: Seq<RawSymbolView>, n: int) -> Seq<(Seq<char>, u64)>
    decreases n,
{
    if n <= 0 {
        Seq::<(Seq<char>, u64)>::empty()
    } else {
        let before = spec_symbol_table(symbols, n - 1);
        let symbol = symbols[n - 1];
        match symbol.name {
            Some(name) => if symbol.is_global && symbol.is_definition && symbol.is_data
                && symbol.address != 0 {
                before.push((name, symbol.address))
            } else {
                before
            },
            None => before,
        }
    }
}

/// The mathematical value of a symbol table.
pub open spec fn symbol_table_view(table: Seq<(String, u64)>) -> Seq<(Seq<char>, u64)> {
    Seq::new(table.len(), |i: int| (table[i].0@, table[i].1))
}

/// The address range of each section that has an address, a size and a
/// name.
pub fn get_elf_sections(sections: &Vec<RawSection>) -> (r: NameMap<(u64, u64)>)
    ensures
        r@ == spec_elf_sections(sections_view(Ok(*sections))->Ok_0, sections@.len() as int),
{
    let ghost raw = sections_view(Ok(*sections))->Ok_0;
    let mut map: NameMap<(u64, u64)> = NameMap::new();
    let mut i: usize = 0;
    while i < sections.len()
        invariant
            i <= sections@.len(),
            raw == sections_view(Ok(*sections))->Ok_0,
            map@ == spec_elf_sections(raw, i as int),
        decreases sections@.len() - i,
    {
        let section = &sections[i];
        assert(raw[i as int] == section@);
        let addr = section.address;
        let size = section.size;
        if addr != 0 && size != 0 {
            if let Some(name) = &section.name {
                proof {
                    lemma_wrapping_add(addr, size);
                }
                let _ = map.insert(name.clone(), (addr, addr.wrapping_add(size)));
            }
        }
        i += 1;
    }
    map
}

/// The name and the address of each global data symbol.
pub fn get_symbol_table(symbols: &Vec<RawSymbol>) -> (r: Vec<(String, u64)>)
    ensures
        symbol_table_view(r@) == spec_symbol_table(
            symbols_view(Ok(*symbols))->Ok_0,
            symbols@.len() as int,
        ),
{
    let ghost raw = symbols_view(Ok(*symbols))->Ok_0;
    let mut table: Vec<(String, u64)> = Vec::new();
    let mut i: usize = 0;
    assert(symbol_table_view(table@) =~= spec_symbol_table(raw, 0));
    while i < symbols.len()
        invariant
            i <= symbols@.len(),
            raw == symbols_view(Ok(*symbols))->Ok_0,
            symbol_table_view(table@) == spec_symbol_table(raw, i as int),
        decreases symbols@.len() - i,
    {
        let sym = &symbols[i];
        assert(raw[i as int] == sym@);
        if sym.is_global && sym.is_definition && sym.is_data && sym.address != 0 {
            if let Some(name) = &sym.name {
                let ghost before = symbol_table_view(table@);
                table.push((name.clone(), sym.address));
                assert(symbol_table_view(table@) =~= before.push((name@, sym.address)));
            }
        }
        i += 1;
    }
    table
}

/// Whether one of the sections is the one that holds the debug
/// information.
pub fn contains_debug_info(sections: &Vec<RawSection>) -> (r: bool)
    ensures
        r == has_debug_info(sections_view(Ok(*sections))->Ok_0),
{
    let ghost raw = sections_view(Ok(*sections))->Ok_0;
    let wanted = ".debug_info".to_owned();
    let mut i: usize = 0;
    while i < sections.len()
        invariant
            i <= sections@.len(),
            raw == sections_view(Ok(*sections))->Ok_0,
            wanted@ == debug_info_name(),
            forall|j: int| 0 <= j < i ==> (#[trigger] raw[j]).name != Some(debug_info_name()),
        decreases sections@.len() - i,
    {
        assert(raw[i as int] == sections@[i as int]@);
        if let Some(name) = &sections[i].name {
            if *name == wanted {
                assert(raw[i as int].name == Some(debug_info_name()));
                return true;
            }
        }
        i += 1;
    }
    false
}

/// Why a program cannot be loaded.
#[derive(Debug)]
pub enum LoadError {
    /// The bytes of the file are no container that can be read.
    ParseFailed { filename: String, cause: String },
    /// The container has no section with debug information.
    MissingDebugInfo { filename: String },
    /// The debug information holds no compile unit.
    NoCompileUnits { filename: String },
}

/// The mathematical value of a [`LoadError`].
pub enum LoadErrorView {
    ParseFailed { filename: Seq<char>, cause: Seq<char> },
    MissingDebugInfo { filename: Seq<char> },
    NoCompileUnits { filename: Seq<char> },
}

impl View for LoadError {
    type V = LoadErrorView;

    open spec fn view(&self) -> LoadErrorView {
        match *self {
            LoadError::ParseFailed { filename, cause } => LoadErrorView::ParseFailed {
                filename: filename@,
                cause: cause@,
            },
            LoadError::MissingDebugInfo { filename } => LoadErrorView::MissingDebugInfo {
                filename: filename@,
            },
            LoadError::NoCompileUnits { filename } => LoadErrorView::NoCompileUnits {
                filename: filename@,
            },
        }
    }
}

/// What is read from the container before the debug information.
#[derive(Debug)]
pub struct Container {
    /// The address range of each section.
    pub sections: NameMap<(u64, u64)>,
    /// The name and the address of each global data symbol.
    pub symbol_table: Vec<(String, u64)>,
    /// Whether the program stores the highest byte of a number first.
    pub big_endian: bool,
}

/// What is read from a container with the sections `sections`, the symbols
/// `symbols` and the byte order `little_endian`, each as it was read or as
/// it failed: the first failure, else the lack of debug information, else
/// the address ranges, the global data symbols and the byte order.
pub open spec fn spec_container(
    filename: Seq<char>,
    sections: Result<Seq<RawSectionView>, Seq<char>>,
    symbols: Result<Seq<RawSymbolView>, Seq<char>>,
    little_endian: Result<bool, Seq<char>>,
) -> Result<(Seq<(Seq<char>, (u64, u64))>, Seq<(Seq<char>, u64)>, bool), LoadErrorView> {
    match sections {
        Err(cause) => Err(LoadErrorView::ParseFailed { filename, cause }),
        Ok(raw) => if !has_debug_info(raw) {
            Err(LoadErrorView::MissingDebugInfo { filename })
        } else {
            match symbols {
                Err(cause) => Err(LoadErrorView::ParseFailed { filename, cause }),
                Ok(table) => match little_endian {
                    Err(cause) => Err(LoadErrorView::ParseFailed { filename, cause }),
                    Ok(little) => Ok(
                        (
                            spec_elf_sections(raw, raw.len() as int),
                            spec_symbol_table(table, table.len() as int),
                            !little,
                        ),
                    ),
                },
            }
        },
    }
}

/// Whether `r` is what `expected` says.
pub open spec fn container_is(
    r: Result<Container, LoadError>,
    expected: Result<(Seq<(Seq<char>, (u64, u64))>, Seq<(Seq<char>, u64)>, bool), LoadErrorView>,
) -> bool {
    match (r, expected) {
        (Ok(c), Ok(e)) => c.sections@ == e.0 && symbol_table_view(c.symbol_table@) == e.1
            && c.big_endian == e.2,
        (Err(e), Err(expected)) => e@ == expected,
        _ => false,
    }
}

/// What is read from a container, given what was read of its sections, of
/// its symbols and of its byte order.
pub fn container_of(
    filename: &str,
    sections: Result<Vec<RawSection>, String>,
    symbols: Result<Vec<RawSymbol>, String>,
    little_endian: Result<bool, String>,
) -> (r: Result<Container, LoadError>)
    ensures
        container_is(
            r,
            spec_container(
                filename@,
                sections_view(sections),
                symbols_view(symbols),
                byte_order_view(little_endian),
            ),
        ),
{
    let raw = match sections {
        Ok(raw) => raw,
        Err(cause) => {
            return Err(LoadError::ParseFailed { filename: filename.to_owned(), cause });
        },
    };
    if !contains_debug_info(&raw) {
        return Err(LoadError::MissingDebugInfo { filename: filename.to_owned() });
    }
    let table = match symbols {
        Ok(table) => table,
        Err(cause) => {
            return Err(LoadError::ParseFailed { filename: filename.to_owned(), cause });
        },
    };
    let big_endian = match little_endian {
        Ok(little) => !little,
        Err(cause) => {
            return Err(LoadError::ParseFailed { filename: filename.to_owned(), cause });
        },
    };
    Ok(
        Container {
            sections: get_elf_sections(&raw),
            symbol_table: get_symbol_table(&table),
            big_endian,
        },
    )
}

/// Reads the container that the bytes `data` of the file `filename` hold:
/// its sections, its global data symbols and its byte order. It fails where
/// the bytes are no container, and where the container has no section with
/// debug information.
pub fn load_elf_file(filename: &str, data: &[u8]) -> (r: Result<Container, LoadError>)
    ensures
        container_is(
            r,
            spec_container(
                filename@,
                container_sections(data@),
                container_symbols(data@),
                container_little_endian(data@),
            ),
        ),
{
    container_of(filename, read_sections(data), read_symbols(data), read_byte_order(data))
}

/// Whether the debug information holds a compile unit.
pub fn verify_dwarf_compile_units(units: &Vec<CompileUnit>) -> (r: bool)
    ensures
        r == (units@.len() > 0),
{
    units.len() > 0
}

/// Builds the data of the program in the file `filename` from what was read
/// of its container and the compile units of its debug information. It
/// fails where there is no compile unit.
pub fn load_dwarf(filename: &str, container: Container, units: Vec<CompileUnit>) -> (r: Result<
    DebugData,
    LoadError,
>)
    ensures
        match r {
            Ok(data) => {
                &&& units@.len() > 0
                &&& typerefs_resolve(data.spec_variables(), data.spec_types())
                &&& all_defined(data.spec_variables())
                &&& is_read_from(
                    data,
                    units@,
                    Map::<usize, crate::class_info::ClassInfoView>::empty(),
                    container.big_endian,
                )
                &&& data.spec_sections() == container.sections@
            },
            Err(e) => units@.len() == 0 && e@ == (LoadErrorView::NoCompileUnits {
                filename: filename@,
            }),
        },
{
    if !verify_dwarf_compile_units(&units) {
        return Err(LoadError::NoCompileUnits { filename: filename.to_owned() });
    }
    let Container { sections, symbol_table: _, big_endian } = container;
    let dbg_reader = DebugDataReader {
        units,
        unit_names: Vec::new(),
        sections,
        class_names: HashMap::new(),
        big_endian,
    };
    assert(crate::extract::class_views(dbg_reader.class_names@) =~= Map::<
        usize,
        crate::class_info::ClassInfoView,
    >::empty());
    Ok(dbg_reader.read_debug_info_entries())
}

} // verus!
