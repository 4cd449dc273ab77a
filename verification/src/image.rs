//! The executable image of the target, as the ELF reader `goblin` and the
//! demangler `rustc_demangle` see it.
//!
//! Nothing in this file is proved: each item states what the outside code is
//! taken to do, and the verified analysis is built on these statements.

use vstd::prelude::*;

verus! {

/// One entry of a symbol table, as plain numbers.
#[derive(Clone, Copy, Debug)]
pub struct RawSymbol {
    /// Offset of the entry's name in the table's string table.
    pub name_offset: usize,
    /// The info byte: binding in the high four bits, type in the low four.
    pub info: u8,
    /// Virtual address of the symbol.
    pub address: u64,
    /// Size of the symbol in bytes.
    pub size: u64,
}

/// What the analysis reads of a parsed image.
pub struct ElfModel {
    /// The entries of the static symbol table, in table order.
    pub static_symbols: Seq<RawSymbol>,
    /// The names that the static string table resolves, by offset.
    pub static_names: Map<usize, Seq<char>>,
    /// The entries of the dynamic symbol table, in table order.
    pub dynamic_symbols: Seq<RawSymbol>,
    /// The names that the dynamic string table resolves, by offset.
    pub dynamic_names: Map<usize, Seq<char>>,
    /// The names of the shared libraries that the image links against.
    pub libraries: Seq<Seq<char>>,
}

/// A symbol table together with the string table that names its entries.
pub struct SymbolSource<'e, 'a> {
    pub symbols: &'e goblin::elf::Symtab<'a>,
    pub strings: &'e goblin::strtab::Strtab<'a>,
}

#[verifier::external_type_specification]
#[verifier::external_body]
pub struct ExElf<'a>(goblin::elf::Elf<'a>);

#[verifier::external_type_specification]
#[verifier::external_body]
pub struct ExSymtab<'a>(goblin::elf::Symtab<'a>);

#[verifier::external_type_specification]
#[verifier::external_body]
pub struct ExStrtab<'a>(goblin::strtab::Strtab<'a>);

#[verifier::external_type_specification]
#[verifier::external_body]
pub struct ExPathBuf(std::path::PathBuf);

/// What `goblin::elf::Elf::parse` makes of a byte string: the image, or the
/// text of the error that it reports.
pub uninterp spec fn parsed_elf(bytes: Seq<u8>) -> Result<ElfModel, Seq<char>>;

/// What a parsed image holds.
pub uninterp spec fn elf_contents(elf: &goblin::elf::Elf) -> ElfModel;

/// The entries of a symbol table, in the order in which it yields them.
pub uninterp spec fn symtab_entries(table: &goblin::elf::Symtab) -> Seq<RawSymbol>;

/// The offsets at which a string table resolves a name, each with that name.
pub uninterp spec fn strtab_names(table: &goblin::strtab::Strtab) -> Map<usize, Seq<char>>;

/// The text that `rustc_demangle::demangle` displays for a symbol name.
pub uninterp spec fn demangled(name: Seq<char>) -> Seq<char>;

/// `goblin::elf::Elf::parse`. Parsing reads the bytes and nothing else, so
/// the same bytes always give the same image or the same refusal; a refusal
/// comes back as the text that goblin's error displays.
#[verifier::external_body]
pub(crate) fn parse_elf<'a>(bytes: &'a [u8]) -> (parsed: Result<goblin::elf::Elf<'a>, String>)
    ensures
        match parsed {
            Ok(elf) => parsed_elf(bytes@) == Ok::<ElfModel, Seq<char>>(elf_contents(&elf)),
            Err(reason) => parsed_elf(bytes@) == Err::<ElfModel, Seq<char>>(reason@),
        },
{
    goblin::elf::Elf::parse(bytes).map_err(|e| e.to_string())
}

/// The fields `syms` and `strtab` of `goblin::elf::Elf`: the static symbol
/// table and the string table that goblin parsed for it.
#[verifier::external_body]
pub(crate) fn static_tables<'e, 'a>(elf: &'e goblin::elf::Elf<'a>) -> (source: SymbolSource<'e, 'a>)
    ensures
        symtab_entries(source.symbols) == elf_contents(elf).static_symbols,
        strtab_names(source.strings) == elf_contents(elf).static_names,
{
    SymbolSource { symbols: &elf.syms, strings: &elf.strtab }
}

/// The fields `dynsyms` and `dynstrtab` of `goblin::elf::Elf`: the dynamic
/// symbol table and its string table.
#[verifier::external_body]
pub(crate) fn dynamic_tables<'e, 'a>(elf: &'e goblin::elf::Elf<'a>) -> (source: SymbolSource<'e, 'a>)
    ensures
        symtab_entries(source.symbols) == elf_contents(elf).dynamic_symbols,
        strtab_names(source.strings) == elf_contents(elf).dynamic_names,
{
    SymbolSource { symbols: &elf.dynsyms, strings: &elf.dynstrtab }
}

/// The field `libraries` of `goblin::elf::Elf`, each name copied into an
/// owned string, in goblin's order.
#[verifier::external_body]
pub(crate) fn linked_libraries(elf: &goblin::elf::Elf) -> (names: Vec<String>)
    ensures
        names@.len() == elf_contents(elf).libraries.len(),
        forall|i: int| 0 <= i < names@.len() ==> (#[trigger] names@[i])@ == elf_contents(elf).libraries[i],
{
    elf.libraries.iter().map(|name| name.to_string()).collect()
}

/// `Symtab::len` returns the number of entries of the table.
pub assume_specification<'a>[ goblin::elf::Symtab::<'a>::len ](table: &goblin::elf::Symtab<'a>) -> (count: usize)
    ensures
        count == symtab_entries(table).len(),
;

/// `Symtab::get`: the entry at `index`, or `None` at or past the table's
/// length. Of goblin's `Sym` the four fields that the analysis reads are
/// copied out.
#[verifier::external_body]
pub(crate) fn symtab_entry(table: &goblin::elf::Symtab, index: usize) -> (entry: Option<RawSymbol>)
    ensures
        index < symtab_entries(table).len() ==> entry == Some(symtab_entries(table)[index as int]),
        index >= symtab_entries(table).len() ==> entry is None,
{
    table.get(index).map(|sym| RawSymbol {
        name_offset: sym.st_name,
        info: sym.st_info,
        address: sym.st_value,
        size: sym.st_size,
    })
}

/// `Strtab::get_at` resolves the name that starts at `offset`, or returns
/// `None` where the table has no string there.
pub assume_specification<'a>[ goblin::strtab::Strtab::<'a>::get_at ](
    table: &goblin::strtab::Strtab<'a>,
    offset: usize,
) -> (name: Option<&'a str>)
    ensures
        match name {
            Some(text) => strtab_names(table).contains_key(offset) && strtab_names(table)[offset] == text@,
            None => !strtab_names(table).contains_key(offset),
        },
;

/// `goblin::elf::sym::st_type` returns the low four bits of an info byte.
pub assume_specification[ goblin::elf::sym::st_type ](info: u8) -> (kind: u8)
    ensures
        kind == info & 0xf,
;

/// `rustc_demangle::demangle`, displayed: the readable form of a symbol
/// name. The demangler reads the name and nothing else, so the same name
/// always reads the same; what it reads is not stated here.
#[verifier::external_body]
pub(crate) fn demangle_name(name: &str) -> (readable: String)
    ensures
        readable@ == demangled(name@),
{
    rustc_demangle::demangle(name).to_string()
}

} // verus!
