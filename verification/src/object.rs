//! The parts of a relocatable object file that the pipeline reads, as plain
//! values, and the reader that fills them in from the raw bytes.

use vstd::prelude::*;
use crate::error::Error;

verus! {

/// Symbol type tag of a data object.
pub const STT_OBJECT: u8 = 1;

/// Symbol type tag of a function.
pub const STT_FUNC: u8 = 2;

/// Symbol type tag of a section.
pub const STT_SECTION: u8 = 3;

/// Symbol binding tag of a local symbol.
pub const STB_LOCAL: u8 = 0;

/// Symbol binding tag of a global symbol.
pub const STB_GLOBAL: u8 = 1;

/// One entry of the section header table.
#[derive(Debug, Clone, PartialEq, Eq)]
pub struct Section {
    /// The section's name, where the section header string table holds one.
    pub name: Option<Vec<u8>>,
    /// Where the section's bytes start in the object file.
    pub offset: u64,
    /// How many bytes the section covers.
    pub size: u64,
    /// The header's `sh_info`: for a relocation section, the index of the
    /// section that its entries patch.
    pub info: u32,
}

/// The mathematical value of a [`Section`].
pub struct SectionView {
    pub name: Option<Seq<u8>>,
    pub offset: u64,
    pub size: u64,
    pub info: u32,
}

impl View for Section {
    type V = SectionView;

    open spec fn view(&self) -> SectionView {
        SectionView {
            name: match self.name {
                Some(n) => Some(n@),
                None => None,
            },
            offset: self.offset,
            size: self.size,
            info: self.info,
        }
    }
}

/// What a symbol stands for, as far as relocation cares.
#[derive(Debug, Clone, Copy, PartialEq, Eq, Structural)]
pub enum SymbolKind {
    Function,
    Object,
    Section,
    Other,
}

/// How far a symbol is visible.
#[derive(Debug, Clone, Copy, PartialEq, Eq, Structural)]
pub enum Binding {
    Global,
    Local,
    Other,
}

/// The kind that a symbol's type tag stands for.
pub open spec fn symbol_kind(tag: u8) -> SymbolKind {
    if tag == STT_FUNC {
        SymbolKind::Function
    } else if tag == STT_OBJECT {
        SymbolKind::Object
    } else if tag == STT_SECTION {
        SymbolKind::Section
    } else {
        SymbolKind::Other
    }
}

/// The binding that a symbol's binding tag stands for.
pub open spec fn symbol_binding(tag: u8) -> Binding {
    if tag == STB_GLOBAL {
        Binding::Global
    } else if tag == STB_LOCAL {
        Binding::Local
    } else {
        Binding::Other
    }
}

/// One entry of the symbol table.
#[derive(Debug, Clone, PartialEq, Eq)]
pub struct Symbol {
    /// The symbol's name, where the symbol string table holds one.
    pub name: Option<Vec<u8>>,
    /// The type tag, the low four bits of `st_info`.
    pub kind: u8,
    /// The binding tag, the high four bits of `st_info`.
    pub binding: u8,
    /// The symbol's value: its offset within the section that owns it.
    pub value: u64,
    /// The index of the section that owns the symbol.
    pub section: usize,
}

/// The mathematical value of a [`Symbol`].
pub struct SymbolView {
    pub name: Option<Seq<u8>>,
    pub kind: u8,
    pub binding: u8,
    pub value: u64,
    pub section: usize,
}

impl View for Symbol {
    type V = SymbolView;

    open spec fn view(&self) -> SymbolView {
        SymbolView {
            name: match self.name {
                Some(n) => Some(n@),
                None => None,
            },
            kind: self.kind,
            binding: self.binding,
            value: self.value,
            section: self.section,
        }
    }
}

impl Symbol {
    /// What the symbol stands for.
    pub fn kind(&self) -> (r: SymbolKind)
        ensures
            r == symbol_kind(self.kind),
    {
        if self.kind == STT_FUNC {
            SymbolKind::Function
        } else if self.kind == STT_OBJECT {
            SymbolKind::Object
        } else if self.kind == STT_SECTION {
            SymbolKind::Section
        } else {
            SymbolKind::Other
        }
    }

    /// How far the symbol is visible.
    pub fn binding(&self) -> (r: Binding)
        ensures
            r == symbol_binding(self.binding),
    {
        if self.binding == STB_GLOBAL {
            Binding::Global
        } else if self.binding == STB_LOCAL {
            Binding::Local
        } else {
            Binding::Other
        }
    }
}

/// One relocation entry: the instruction at `offset` refers to the symbol
/// with index `symbol`.
#[derive(Debug, Clone, Copy, PartialEq, Eq, Structural)]
pub struct Relocation {
    pub offset: u64,
    pub symbol: usize,
}

/// The entries of one relocation section.
#[derive(Debug, Clone, PartialEq, Eq)]
pub struct RelocationSection {
    /// The index of the relocation section in the section header table.
    pub section: usize,
    /// Its entries, in file order.
    pub entries: Vec<Relocation>,
}

/// The mathematical value of a [`RelocationSection`].
pub struct RelocationSectionView {
    pub section: usize,
    pub entries: Seq<Relocation>,
}

impl View for RelocationSection {
    type V = RelocationSectionView;

    open spec fn view(&self) -> RelocationSectionView {
        RelocationSectionView { section: self.section, entries: self.entries@ }
    }
}

/// What the pipeline reads of an object file.
#[derive(Debug, Clone, PartialEq, Eq)]
pub struct ObjectFile {
    /// The section header table, in file order.
    pub sections: Vec<Section>,
    /// The symbol table, in file order.
    pub symbols: Vec<Symbol>,
    /// The relocation sections, in section header order.
    pub relocations: Vec<RelocationSection>,
}

/// The mathematical value of an [`ObjectFile`].
pub struct ObjectFileView {
    pub sections: Seq<SectionView>,
    pub symbols: Seq<SymbolView>,
    pub relocations: Seq<RelocationSectionView>,
}

/// The views of a sequence of sections, in order.
pub open spec fn sections_view(sections: Seq<Section>) -> Seq<SectionView> {
    Seq::new(sections.len(), |i: int| sections[i]@)
}

/// The views of a sequence of symbols, in order.
pub open spec fn symbols_view(symbols: Seq<Symbol>) -> Seq<SymbolView> {
    Seq::new(symbols.len(), |i: int| symbols[i]@)
}

/// The views of a sequence of relocation sections, in order.
pub open spec fn relocations_view(relocations: Seq<RelocationSection>) -> Seq<
    RelocationSectionView,
> {
    Seq::new(relocations.len(), |i: int| relocations[i]@)
}

impl View for ObjectFile {
    type V = ObjectFileView;

    open spec fn view(&self) -> ObjectFileView {
        ObjectFileView {
            sections: sections_view(self.sections@),
            symbols: symbols_view(self.symbols@),
            relocations: relocations_view(self.relocations@),
        }
    }
}

/// What `goblin` reads as the section header table of an object file, each
/// header with its name from the section header string table; `None` where
/// the bytes do not parse.
pub uninterp spec fn elf_sections(bytes: Seq<u8>) -> Option<Seq<SectionView>>;

/// What `goblin` reads as the symbol table of an object file, each symbol
/// with its name from the symbol string table; `None` where the bytes do not
/// parse.
pub uninterp spec fn elf_symbols(bytes: Seq<u8>) -> Option<Seq<SymbolView>>;

/// What `goblin` reads as the relocation sections of an object file; `None`
/// where the bytes do not parse.
pub uninterp spec fn elf_relocations(bytes: Seq<u8>) -> Option<Seq<RelocationSectionView>>;

/// Parses `bytes` with `goblin::elf::Elf::parse` and copies out the section
/// header table, looking each name up with `Strtab::get_at`. The contract
/// claims only that the outcome depends on nothing but the bytes.
#[verifier::external_body]
fn read_sections(bytes: &[u8]) -> (r: Option<Vec<Section>>)
    ensures
        match r {
            Some(v) => elf_sections(bytes@) == Some(sections_view(v@)),
            None => elf_sections(bytes@) is None,
        },
{
    let elf = goblin::elf::Elf::parse(bytes).ok()?;
    let table = elf.section_headers.iter().map(|h| Section {
        name: elf.shdr_strtab.get_at(h.sh_name).map(|n| n.as_bytes().to_vec()),
        offset: h.sh_offset,
        size: h.sh_size,
        info: h.sh_info,
    });
    Some(table.collect())
}

/// Parses `bytes` with `goblin::elf::Elf::parse` and copies out the symbol
/// table (`Elf::syms`), looking each name up with `Strtab::get_at` and
/// splitting `st_info` with `Sym::st_type` and `Sym::st_bind`. The contract
/// claims only that the outcome depends on nothing but the bytes.
#[verifier::external_body]
fn read_symbols(bytes: &[u8]) -> (r: Option<Vec<Symbol>>)
    ensures
        match r {
            Some(v) => elf_symbols(bytes@) == Some(symbols_view(v@)),
            None => elf_symbols(bytes@) is None,
        },
{
    let elf = goblin::elf::Elf::parse(bytes).ok()?;
    let table = elf.syms.iter().map(|s| Symbol {
        name: elf.strtab.get_at(s.st_name).map(|n| n.as_bytes().to_vec()),
        kind: s.st_type(),
        binding: s.st_bind(),
        value: s.st_value,
        section: s.st_shndx,
    });
    Some(table.collect())
}

/// Parses `bytes` with `goblin::elf::Elf::parse` and copies out the
/// relocation sections (`Elf::shdr_relocs`), each with the entries that
/// `RelocSection::iter` yields. The contract claims only that the outcome
/// depends on nothing but the bytes.
#[verifier::external_body]
fn read_relocations(bytes: &[u8]) -> (r: Option<Vec<RelocationSection>>)
    ensures
        match r {
            Some(v) => elf_relocations(bytes@) == Some(relocations_view(v@)),
            None => elf_relocations(bytes@) is None,
        },
{
    let elf = goblin::elf::Elf::parse(bytes).ok()?;
    let table = elf.shdr_relocs.iter().map(|(index, section)| RelocationSection {
        section: *index,
        entries: section
            .iter()
            .map(|r| Relocation { offset: r.r_offset, symbol: r.r_sym })
            .collect(),
    });
    Some(table.collect())
}

/// The object that the three tables of `bytes` make up; `None` where one of
/// them cannot be read.
pub open spec fn parsed_object(bytes: Seq<u8>) -> Option<ObjectFileView> {
    match (elf_sections(bytes), elf_symbols(bytes), elf_relocations(bytes)) {
        (Some(sections), Some(symbols), Some(relocations)) => Some(
            ObjectFileView { sections, symbols, relocations },
        ),
        _ => None,
    }
}

/// Reads the section headers, the symbols and the relocation sections of an
/// object file. Fails with [`Error::Parse`] exactly where the bytes are not a
/// valid object file.
pub fn parse_object(bytes: &[u8]) -> (r: Result<ObjectFile, Error>)
    ensures
        match r {
            Ok(object) => parsed_object(bytes@) == Some(object@),
            Err(e) => e == Error::Parse && parsed_object(bytes@) is None,
        },
{
    let sections = match read_sections(bytes) {
        Some(sections) => sections,
        None => {
            return Err(Error::Parse);
        },
    };
    let symbols = match read_symbols(bytes) {
        Some(symbols) => symbols,
        None => {
            return Err(Error::Parse);
        },
    };
    let relocations = match read_relocations(bytes) {
        Some(relocations) => relocations,
        None => {
            return Err(Error::Parse);
        },
    };
    Ok(ObjectFile { sections, symbols, relocations })
}

} // verus!
