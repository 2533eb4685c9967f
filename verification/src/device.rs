//! Relocation of a whole object file in place, for a program that is loaded
//! as it was compiled: every relocated instruction gets the address at which
//! the data it refers to lies in memory.

use vstd::prelude::*;
use crate::error::{Error, Field};
use crate::instruction::{
    CALL_OPCODE,
    INSTRUCTION_SIZE,
    LDDW_INSTRUCTION_SIZE,
    LDDW_OPCODE,
    lddw_immediate,
    read_lddw_immediate,
    with_call,
    with_lddw,
    with_word,
    write_call,
    write_lddw,
    write_word,
};
use crate::object::{
    ObjectFile,
    ObjectFileView,
    Relocation,
    RelocationSection,
    RelocationSectionView,
    parse_object,
    parsed_object,
};

verus! {

/// What the register byte of a relocated call holds: source register 3,
/// which tells the VM to take the immediate as the address of the function.
pub const ABSOLUTE_CALL_REGISTERS: u8 = 0x30;

/// One place of the program to rewrite, and the address to write there.
#[derive(Debug, Clone, Copy, PartialEq, Eq, Structural)]
pub struct Patch {
    /// The offset of the instruction in the object file.
    pub site: u64,
    /// The address of what the instruction refers to.
    pub value: u32,
}

/// The places found so far; `error` is set by the first entry that cannot
/// be placed, and nothing changes after.
pub struct Collection {
    pub patches: Seq<Patch>,
    pub error: Option<Error>,
}

/// The file offset of the section whose instructions the entries of a
/// relocation section name: the section that the `sh_info` of the
/// relocation section's header points to.
pub open spec fn patched_section_offset(
    object: ObjectFileView,
    relocations: RelocationSectionView,
) -> Option<u64> {
    if relocations.section < object.sections.len()
        && object.sections[relocations.section as int].info < object.sections.len() {
        Some(object.sections[object.sections[relocations.section as int].info as int].offset)
    } else {
        None
    }
}

/// Places one entry. An entry without a symbol is passed over. Otherwise
/// the address is that of the program, plus the file offset of the section
/// that owns the symbol, plus the symbol's value; the site is the entry's
/// offset within the section that is patched, which starts at `base`.
pub open spec fn collect_entry(
    object: ObjectFileView,
    address: u32,
    base: u64,
    state: Collection,
    entry: Relocation,
) -> Collection {
    if state.error is Some || entry.symbol >= object.symbols.len() {
        state
    } else {
        let symbol = object.symbols[entry.symbol as int];
        if symbol.section >= object.sections.len() {
            Collection { error: Some(Error::UnknownSection), ..state }
        } else if address + object.sections[symbol.section as int].offset + symbol.value
            > u32::MAX {
            Collection { error: Some(Error::Overflow(Field::Address)), ..state }
        } else if base + entry.offset > u64::MAX {
            Collection { error: Some(Error::RelocationOutOfBounds), ..state }
        } else {
            Collection {
                patches: state.patches.push(
                    Patch {
                        site: (base + entry.offset) as u64,
                        value: (address + object.sections[symbol.section as int].offset
                            + symbol.value) as u32,
                    },
                ),
                error: None,
            }
        }
    }
}

/// Places the first `n` entries of a relocation section.
pub open spec fn collect_entries(
    object: ObjectFileView,
    address: u32,
    base: u64,
    state: Collection,
    entries: Seq<Relocation>,
    n: nat,
) -> Collection
    decreases n,
{
    if n == 0 {
        state
    } else {
        collect_entry(
            object,
            address,
            base,
            collect_entries(object, address, base, state, entries, (n - 1) as nat),
            entries[n - 1],
        )
    }
}

/// Places the entries of one relocation section.
pub open spec fn collect_section(
    object: ObjectFileView,
    address: u32,
    state: Collection,
    relocations: RelocationSectionView,
) -> Collection {
    if state.error is Some {
        state
    } else {
        match patched_section_offset(object, relocations) {
            None => Collection { error: Some(Error::UnknownSection), ..state },
            Some(base) => collect_entries(
                object,
                address,
                base,
                state,
                relocations.entries,
                relocations.entries.len(),
            ),
        }
    }
}

/// Places the entries of the first `n` relocation sections.
pub open spec fn collect_sections(object: ObjectFileView, address: u32, n: nat) -> Collection
    decreases n,
{
    if n == 0 {
        Collection { patches: Seq::empty(), error: None }
    } else {
        collect_section(
            object,
            address,
            collect_sections(object, address, (n - 1) as nat),
            object.relocations[n - 1],
        )
    }
}

/// Every place of an object to rewrite, for a program loaded at `address`.
pub open spec fn all_patches(object: ObjectFileView, address: u32) -> Collection {
    collect_sections(object, address, object.relocations.len())
}

/// The program while it is patched; `error` is set by the first patch that
/// cannot be made, and nothing changes after.
pub struct Patching {
    pub program: Seq<u8>,
    pub error: Option<Error>,
}

/// Makes one patch, by the opcode that stands at its site.
///
/// A wide load gets the value added to its low immediate. A call gets the
/// value as its immediate and the register byte that marks an absolute
/// call. A zero opcode marks a data slot, which is replaced by the value
/// and four zero bytes. Any other opcode is left as it is.
pub open spec fn apply_patch(state: Patching, patch: Patch) -> Patching {
    let program = state.program;
    let site = patch.site as int;
    if state.error is Some {
        state
    } else if site >= program.len() {
        Patching { error: Some(Error::RelocationOutOfBounds), ..state }
    } else if program[site] == LDDW_OPCODE {
        if site + LDDW_INSTRUCTION_SIZE > program.len() {
            Patching { error: Some(Error::RelocationOutOfBounds), ..state }
        } else if lddw_immediate(program, site) + patch.value > u32::MAX {
            Patching { error: Some(Error::Overflow(Field::Immediate)), ..state }
        } else {
            Patching {
                program: with_lddw(
                    program,
                    site,
                    LDDW_OPCODE,
                    (lddw_immediate(program, site) + patch.value) as u32,
                ),
                error: None,
            }
        }
    } else if program[site] == CALL_OPCODE || program[site] == 0 {
        if site + INSTRUCTION_SIZE > program.len() {
            Patching { error: Some(Error::RelocationOutOfBounds), ..state }
        } else if program[site] == CALL_OPCODE {
            Patching {
                program: with_call(program, site, ABSOLUTE_CALL_REGISTERS, patch.value),
                error: None,
            }
        } else {
            Patching { program: with_word(program, site, patch.value), error: None }
        }
    } else {
        state
    }
}

/// Makes the first `n` patches, in order.
pub open spec fn apply_patches(program: Seq<u8>, patches: Seq<Patch>, n: nat) -> Patching
    decreases n,
{
    if n == 0 {
        Patching { program, error: None }
    } else {
        apply_patch(apply_patches(program, patches, (n - 1) as nat), patches[n - 1])
    }
}

/// What relocating `program`, loaded at `address`, gives: the program as it
/// was where a place cannot be found, otherwise the program with the
/// patches made up to the first that fails.
pub open spec fn relocated(object: ObjectFileView, program: Seq<u8>, address: u32) -> Patching {
    let collection = all_patches(object, address);
    if collection.error is Some {
        Patching { program, error: collection.error }
    } else {
        apply_patches(program, collection.patches, collection.patches.len())
    }
}

/// The file offset of the section whose instructions the entries of a
/// relocation section name.
fn patched_offset(object: &ObjectFile, relocations: &RelocationSection) -> (r: Option<u64>)
    ensures
        r == patched_section_offset(object@, relocations@),
{
    if relocations.section >= object.sections.len() {
        return None;
    }
    let target: u32 = object.sections[relocations.section].info;
    if target as u64 >= object.sections.len() as u64 {
        return None;
    }
    Some(object.sections[target as usize].offset)
}

/// Every place of the object to rewrite, for a program loaded at `address`:
/// the entries of all relocation sections in order, each as
/// [`collect_entry`] says.
pub fn collect_patches(object: &ObjectFile, address: u32) -> (r: Result<Vec<Patch>, Error>)
    ensures
        match all_patches(object@, address).error {
            Some(e) => r == Err::<Vec<Patch>, Error>(e),
            None => r matches Ok(patches) && patches@ == all_patches(object@, address).patches,
        },
{
    let mut patches: Vec<Patch> = Vec::new();
    let mut i: usize = 0;
    while i < object.relocations.len()
        invariant
            i <= object.relocations.len(),
            collect_sections(object@, address, i as nat) == (Collection {
                patches: patches@,
                error: None,
            }),
        decreases object.relocations.len() - i,
    {
        let section = &object.relocations[i];
        let ghost before = collect_sections(object@, address, i as nat);
        assert(collect_sections(object@, address, (i + 1) as nat) == collect_section(
            object@,
            address,
            before,
            section@,
        ));
        let base = match patched_offset(object, section) {
            Some(base) => base,
            None => {
                proof {
                    lemma_section_error_is_kept(
                        object@,
                        address,
                        (i + 1) as nat,
                        object@.relocations.len(),
                    );
                }
                return Err(Error::UnknownSection);
            },
        };
        let mut j: usize = 0;
        while j < section.entries.len()
            invariant
                j <= section.entries.len(),
                i < object.relocations.len(),
                section == &object.relocations[i as int],
                before.error is None,
                patched_section_offset(object@, section@) == Some(base),
                collect_sections(object@, address, (i + 1) as nat) == collect_section(
                    object@,
                    address,
                    before,
                    section@,
                ),
                collect_entries(object@, address, base, before, section.entries@, j as nat) == (
                Collection { patches: patches@, error: None }),
            decreases section.entries.len() - j,
        {
            let entry = section.entries[j];
            let ghost reached = collect_entries(
                object@,
                address,
                base,
                before,
                section.entries@,
                j as nat,
            );
            assert(collect_entries(object@, address, base, before, section.entries@, (j + 1) as nat)
                == collect_entry(object@, address, base, reached, entry));
            if entry.symbol < object.symbols.len() {
                let symbol = &object.symbols[entry.symbol];
                let failure: Option<Error> = if symbol.section >= object.sections.len() {
                    Some(Error::UnknownSection)
                } else {
                    let offset: u64 = object.sections[symbol.section].offset;
                    let limit: u64 = u32::MAX as u64 - address as u64;
                    if offset > limit || symbol.value > limit - offset {
                        Some(Error::Overflow(Field::Address))
                    } else if entry.offset > u64::MAX - base {
                        Some(Error::RelocationOutOfBounds)
                    } else {
                        patches.push(
                            Patch {
                                site: base + entry.offset,
                                value: (address as u64 + offset + symbol.value) as u32,
                            },
                        );
                        None
                    }
                };
                if let Some(e) = failure {
                    proof {
                        lemma_entry_error_is_kept(
                            object@,
                            address,
                            base,
                            before,
                            section.entries@,
                            (j + 1) as nat,
                            section.entries@.len(),
                        );
                        lemma_section_error_is_kept(
                            object@,
                            address,
                            (i + 1) as nat,
                            object@.relocations.len(),
                        );
                    }
                    return Err(e);
                }
            }
            j += 1;
        }
        i += 1;
    }
    Ok(patches)
}

/// Makes one patch in `program`, as [`apply_patch`] says. Where the patch
/// cannot be made, `program` stays as it is.
pub fn patch_program(program: &mut [u8], patch: &Patch) -> (r: Result<(), Error>)
    ensures
        final(program)@ == apply_patch(
            Patching { program: old(program)@, error: None },
            *patch,
        ).program,
        r == match apply_patch(Patching { program: old(program)@, error: None }, *patch).error {
            Some(e) => Err::<(), Error>(e),
            None => Ok(()),
        },
{
    let len: u64 = program.len() as u64;
    if patch.site >= len {
        return Err(Error::RelocationOutOfBounds);
    }
    let site: usize = patch.site as usize;
    let opcode: u8 = program[site];
    if opcode == LDDW_OPCODE {
        if program.len() - site < LDDW_INSTRUCTION_SIZE {
            return Err(Error::RelocationOutOfBounds);
        }
        let immediate: u32 = read_lddw_immediate(program, site);
        if patch.value > u32::MAX - immediate {
            return Err(Error::Overflow(Field::Immediate));
        }
        write_lddw(program, site, LDDW_OPCODE, immediate + patch.value);
    } else if opcode == CALL_OPCODE || opcode == 0 {
        if program.len() - site < INSTRUCTION_SIZE {
            return Err(Error::RelocationOutOfBounds);
        }
        if opcode == CALL_OPCODE {
            write_call(program, site, ABSOLUTE_CALL_REGISTERS, patch.value);
        } else {
            write_word(program, site, patch.value);
        }
    }
    Ok(())
}

/// Relocates `program`, the bytes of the object file that `object` was
/// parsed from, for execution at `address`.
///
/// All places are found first, as [`all_patches`] says; where that fails
/// the program stays as it is. Then the patches are made in order, each by
/// the opcode that stands at its site at that moment; where one fails the
/// program keeps the patches made before it.
pub fn relocate_object(object: &ObjectFile, program: &mut [u8], address: u32) -> (r: Result<
    (),
    Error,
>)
    ensures
        final(program)@ == relocated(object@, old(program)@, address).program,
        r == match relocated(object@, old(program)@, address).error {
            Some(e) => Err::<(), Error>(e),
            None => Ok(()),
        },
{
    let patches = collect_patches(object, address)?;
    let mut i: usize = 0;
    while i < patches.len()
        invariant
            i <= patches.len(),
            all_patches(object@, address).error is None,
            patches@ == all_patches(object@, address).patches,
            apply_patches(old(program)@, patches@, i as nat) == (Patching {
                program: program@,
                error: None,
            }),
        decreases patches.len() - i,
    {
        let ghost before = apply_patches(old(program)@, patches@, i as nat);
        assert(apply_patches(old(program)@, patches@, (i + 1) as nat) == apply_patch(
            before,
            patches@[i as int],
        ));
        if let Err(e) = patch_program(program, &patches[i]) {
            proof {
                lemma_patch_error_is_kept(old(program)@, patches@, (i + 1) as nat, patches@.len());
            }
            return Err(e);
        }
        i += 1;
    }
    Ok(())
}

/// Relocates an object file in place for execution at `program_address`,
/// the address at which its first byte lies in the memory of the VM.
///
/// Fails with [`Error::Parse`], and leaves the bytes as they are, where
/// they are not an object file; otherwise as [`relocate_object`] on what was
/// parsed.
pub fn relocate_in_place(program: &mut [u8], program_address: u32) -> (r: Result<(), Error>)
    ensures
        match parsed_object(old(program)@) {
            None => r == Err::<(), Error>(Error::Parse) && final(program)@ == old(program)@,
            Some(object) => final(program)@ == relocated(
                object,
                old(program)@,
                program_address,
            ).program && r == match relocated(object, old(program)@, program_address).error {
                Some(e) => Err::<(), Error>(e),
                None => Ok(()),
            },
        },
{
    let object = parse_object(program)?;
    relocate_object(&object, program, program_address)
}

/// Once an entry has failed, the entries after it change nothing.
proof fn lemma_entry_error_is_kept(
    object: ObjectFileView,
    address: u32,
    base: u64,
    state: Collection,
    entries: Seq<Relocation>,
    n: nat,
    m: nat,
)
    requires
        n <= m,
        collect_entries(object, address, base, state, entries, n).error is Some,
    ensures
        collect_entries(object, address, base, state, entries, m) == collect_entries(
            object,
            address,
            base,
            state,
            entries,
            n,
        ),
    decreases m - n,
{
    if n < m {
        lemma_entry_error_is_kept(object, address, base, state, entries, n, (m - 1) as nat);
    }
}

/// Once a relocation section has failed, the sections after it change
/// nothing.
proof fn lemma_section_error_is_kept(object: ObjectFileView, address: u32, n: nat, m: nat)
    requires
        n <= m,
        collect_sections(object, address, n).error is Some,
    ensures
        collect_sections(object, address, m) == collect_sections(object, address, n),
    decreases m - n,
{
    if n < m {
        lemma_section_error_is_kept(object, address, n, (m - 1) as nat);
    }
}

/// Once a patch has failed, the patches after it change nothing.
proof fn lemma_patch_error_is_kept(program: Seq<u8>, patches: Seq<Patch>, n: nat, m: nat)
    requires
        n <= m,
        apply_patches(program, patches, n).error is Some,
    ensures
        apply_patches(program, patches, m) == apply_patches(program, patches, n),
    decreases m - n,
{
    if n < m {
        lemma_patch_error_is_kept(program, patches, n, (m - 1) as nat);
    }
}

} // verus!
