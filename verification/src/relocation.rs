//! Resolving the relocation entries of an object against its text: data and
//! string references are patched in place, calls are handed to the loader.

use vstd::prelude::*;
use crate::bytes::{contains, contains_bytes, lemma_u32_at_subrange};
use crate::error::{Error, Field};
use crate::instruction::{
    LDDWD_OPCODE,
    LDDWR_OPCODE,
    holds_lddw,
    is_lddw_at,
    lddw_immediate,
    lemma_with_lddw_reads_back,
    read_lddw_immediate,
    with_lddw,
    write_lddw,
};
use crate::literals::{StringLiteralOffsets, literal_marker};
use crate::object::{
    ObjectFile,
    ObjectFileView,
    Relocation,
    RelocationSectionView,
    Symbol,
    SymbolKind,
    SymbolView,
    symbol_kind,
};

verus! {

/// One record of the call table: the call at `instruction_offset` in the
/// text goes to the function at `function_text_offset`.
#[derive(Debug, Clone, Copy, PartialEq, Eq, Structural)]
pub struct RelocatedCall {
    pub instruction_offset: u32,
    pub function_text_offset: u32,
}

/// What resolving the relocations of an object gave, besides the patched
/// text.
#[derive(Debug, Clone, PartialEq, Eq)]
pub struct Resolved {
    /// One record for each relocation against a function, in the order of
    /// the entries.
    pub calls: Vec<RelocatedCall>,
    /// How many entries were passed over because their symbol or the
    /// section it belongs to has no place in the image.
    pub skipped: usize,
}

/// The entries of the first `n` relocation sections, one section after the
/// other.
pub open spec fn entries_of(relocations: Seq<RelocationSectionView>, n: nat) -> Seq<Relocation>
    decreases n,
{
    if n == 0 {
        Seq::empty()
    } else {
        entries_of(relocations, (n - 1) as nat) + relocations[n - 1].entries
    }
}

/// Every relocation entry of an object, across its relocation sections.
pub open spec fn all_entries(object: ObjectFileView) -> Seq<Relocation> {
    entries_of(object.relocations, object.relocations.len())
}

/// The name of the section that owns the symbol, where there is one.
pub open spec fn owner_name(object: ObjectFileView, symbol: SymbolView) -> Option<Seq<u8>> {
    if symbol.section < object.sections.len() {
        object.sections[symbol.section as int].name
    } else {
        None
    }
}

/// The opcode that a resolved load gets: the read-only variant where the
/// target lies in a string literal pool, the data variant otherwise.
pub open spec fn load_opcode(owner: Option<Seq<u8>>) -> u8 {
    if owner matches Some(name) && contains_bytes(name, literal_marker()) {
        LDDWR_OPCODE
    } else {
        LDDWD_OPCODE
    }
}

/// The text, the calls and the count of skipped entries while the entries
/// are walked; `error` is set by the first entry whose values do not fit,
/// and nothing changes after.
pub struct Resolution {
    pub text: Seq<u8>,
    pub calls: Seq<RelocatedCall>,
    pub skipped: nat,
    pub error: Option<Error>,
}

/// What patching the load at `at` makes of `text`. Where a whole wide load
/// stands at `at`, its opcode becomes `opcode` and `add` is added to its low
/// immediate, which must have room for the sum. Anything else at `at` is
/// left as it is.
pub open spec fn patched_text(
    text: Seq<u8>,
    at: u64,
    add: nat,
    opcode: u8,
) -> Result<Seq<u8>, Error> {
    if !holds_lddw(text, at as int) {
        Ok(text)
    } else if lddw_immediate(text, at as int) + add > u32::MAX {
        Err(Error::Overflow(Field::Immediate))
    } else {
        Ok(with_lddw(text, at as int, opcode, (lddw_immediate(text, at as int) + add) as u32))
    }
}

/// Patches the load at `at` in the text of `state`: see [`patched_text`].
pub open spec fn patch_load(state: Resolution, at: u64, add: nat, opcode: u8) -> Resolution {
    match patched_text(state.text, at, add, opcode) {
        Ok(text) => Resolution { text, ..state },
        Err(e) => Resolution { error: Some(e), ..state },
    }
}

/// Passes over an entry.
pub open spec fn skip(state: Resolution) -> Resolution {
    Resolution { skipped: state.skipped + 1, ..state }
}

/// Resolves one relocation entry.
///
/// An entry without a symbol is skipped. Against a function, the text stays
/// as it is and a call record is added. Against a section, the offset
/// recorded for the section's name is added to the load; a section without a
/// recorded offset is skipped. Against a data object, the symbol's value is
/// added to the load. Symbols of other kinds are skipped.
pub open spec fn resolve_entry(
    object: ObjectFileView,
    offsets: Map<Seq<u8>, nat>,
    state: Resolution,
    entry: Relocation,
) -> Resolution {
    if state.error is Some {
        state
    } else if entry.symbol >= object.symbols.len() {
        skip(state)
    } else {
        let symbol = object.symbols[entry.symbol as int];
        let owner = owner_name(object, symbol);
        match symbol_kind(symbol.kind) {
            SymbolKind::Function => if entry.offset > u32::MAX {
                Resolution { error: Some(Error::Overflow(Field::CallSite)), ..state }
            } else if symbol.value > u32::MAX {
                Resolution { error: Some(Error::Overflow(Field::CallTarget)), ..state }
            } else {
                Resolution {
                    calls: state.calls.push(
                        RelocatedCall {
                            instruction_offset: entry.offset as u32,
                            function_text_offset: symbol.value as u32,
                        },
                    ),
                    ..state
                }
            },
            SymbolKind::Section => if owner matches Some(name) && offsets.contains_key(name) {
                patch_load(state, entry.offset, offsets[owner->0], load_opcode(owner))
            } else {
                skip(state)
            },
            SymbolKind::Object => patch_load(
                state,
                entry.offset,
                symbol.value as nat,
                load_opcode(owner),
            ),
            SymbolKind::Other => skip(state),
        }
    }
}

/// Resolves the first `n` of `entries`, in order, starting from `text`.
pub open spec fn resolve_entries(
    object: ObjectFileView,
    offsets: Map<Seq<u8>, nat>,
    text: Seq<u8>,
    entries: Seq<Relocation>,
    n: nat,
) -> Resolution
    decreases n,
{
    if n == 0 {
        Resolution { text, calls: Seq::empty(), skipped: 0, error: None }
    } else {
        resolve_entry(
            object,
            offsets,
            resolve_entries(object, offsets, text, entries, (n - 1) as nat),
            entries[n - 1],
        )
    }
}

/// Resolves every relocation entry of an object, starting from `text`.
pub open spec fn resolve_all(
    object: ObjectFileView,
    offsets: Map<Seq<u8>, nat>,
    text: Seq<u8>,
) -> Resolution {
    resolve_entries(object, offsets, text, all_entries(object), all_entries(object).len())
}

/// The entry patches a load: its symbol is a data object or a section.
pub open spec fn targets_data(object: ObjectFileView, entry: Relocation) -> bool {
    entry.symbol < object.symbols.len() && (symbol_kind(object.symbols[entry.symbol as int].kind)
        == SymbolKind::Object || symbol_kind(object.symbols[entry.symbol as int].kind)
        == SymbolKind::Section)
}

/// The byte at `at` belongs to what a patch of the load at `site` rewrites:
/// the opcode or the low immediate.
pub open spec fn rewritten_by(site: u64, at: int) -> bool {
    at == site || site + 4 <= at < site + 8
}

/// A relocation against a function never touches the text: resolving it
/// leaves every byte as it was, and where its offset and the function's
/// value fit 32 bits, which is exactly when it succeeds, it adds one call
/// record that holds the two.
pub proof fn lemma_call_leaves_text(
    object: ObjectFileView,
    offsets: Map<Seq<u8>, nat>,
    state: Resolution,
    entry: Relocation,
)
    requires
        state.error is None,
        entry.symbol < object.symbols.len(),
        symbol_kind(object.symbols[entry.symbol as int].kind) == SymbolKind::Function,
    ensures
        ({
            let next = resolve_entry(object, offsets, state, entry);
            let symbol = object.symbols[entry.symbol as int];
            &&& next.text == state.text
            &&& next.skipped == state.skipped
            &&& next.error is None <==> entry.offset <= u32::MAX && symbol.value <= u32::MAX
            &&& next.error is None ==> next.calls == state.calls.push(
                RelocatedCall {
                    instruction_offset: entry.offset as u32,
                    function_text_offset: symbol.value as u32,
                },
            )
            &&& next.error is Some ==> next.calls == state.calls
        }),
{
}

/// A relocation against a string literal pool adds to the load exactly the
/// offset that was recorded for the pool: where a wide load stands at the
/// entry's offset and the sum fits, the low immediate afterwards is the one
/// before plus the recorded offset, the opcode is the one that the pool's
/// name calls for, and no other byte, no call and no count has changed.
pub proof fn lemma_literal_load_adds_recorded_offset(
    object: ObjectFileView,
    offsets: Map<Seq<u8>, nat>,
    state: Resolution,
    entry: Relocation,
)
    requires
        state.error is None,
        entry.symbol < object.symbols.len(),
        symbol_kind(object.symbols[entry.symbol as int].kind) == SymbolKind::Section,
        owner_name(object, object.symbols[entry.symbol as int]) is Some,
        offsets.contains_key(owner_name(object, object.symbols[entry.symbol as int])->0),
        holds_lddw(state.text, entry.offset as int),
        lddw_immediate(state.text, entry.offset as int) + offsets[owner_name(
            object,
            object.symbols[entry.symbol as int],
        )->0] <= u32::MAX,
    ensures
        ({
            let next = resolve_entry(object, offsets, state, entry);
            let owner = owner_name(object, object.symbols[entry.symbol as int]);
            let at = entry.offset as int;
            &&& next.error is None
            &&& next.calls == state.calls
            &&& next.skipped == state.skipped
            &&& next.text.len() == state.text.len()
            &&& lddw_immediate(next.text, at) == lddw_immediate(state.text, at) + offsets[owner->0]
            &&& next.text[at] == load_opcode(owner)
            &&& forall|i: int|
                0 <= i < state.text.len() && !rewritten_by(entry.offset, i) ==> next.text[i]
                    == state.text[i]
        }),
{
    let owner = owner_name(object, object.symbols[entry.symbol as int]);
    let at = entry.offset as int;
    let immediate = (lddw_immediate(state.text, at) + offsets[owner->0]) as u32;
    lemma_u32_at_subrange(state.text, at + 4);
    lemma_with_lddw_reads_back(state.text, at, load_opcode(owner), immediate);
}

/// Resolving one entry keeps the length of the text, and changes a byte
/// only where the entry patches a load whose opcode or low immediate the
/// byte belongs to.
pub proof fn lemma_entry_changes_only_its_load(
    object: ObjectFileView,
    offsets: Map<Seq<u8>, nat>,
    state: Resolution,
    entry: Relocation,
)
    ensures
        ({
            let next = resolve_entry(object, offsets, state, entry);
            &&& next.text.len() == state.text.len()
            &&& forall|i: int|
                0 <= i < state.text.len() && !(targets_data(object, entry) && rewritten_by(
                    entry.offset,
                    i,
                )) ==> next.text[i] == state.text[i]
        }),
{
    let next = resolve_entry(object, offsets, state, entry);
    let at = entry.offset as int;
    if next.text != state.text {
        let symbol = object.symbols[entry.symbol as int];
        let owner = owner_name(object, symbol);
        let add: nat = if symbol_kind(symbol.kind) == SymbolKind::Section {
            offsets[owner->0]
        } else {
            symbol.value as nat
        };
        lemma_u32_at_subrange(state.text, at + 4);
        lemma_with_lddw_reads_back(
            state.text,
            at,
            load_opcode(owner),
            (lddw_immediate(state.text, at) + add) as u32,
        );
    }
}

/// Resolution keeps the length of the text, and a byte of the text that no
/// load relocation among the first `n` entries rewrites is after them what
/// it was before. In particular the instruction that a call relocation
/// names stays as it is, unless a load relocation names the same bytes.
pub proof fn lemma_text_changes_only_at_loads(
    object: ObjectFileView,
    offsets: Map<Seq<u8>, nat>,
    text: Seq<u8>,
    entries: Seq<Relocation>,
    n: nat,
    at: int,
)
    requires
        n <= entries.len(),
        0 <= at < text.len(),
        forall|k: int|
            0 <= k < n && targets_data(object, #[trigger] entries[k]) ==> !rewritten_by(
                entries[k].offset,
                at,
            ),
    ensures
        resolve_entries(object, offsets, text, entries, n).text.len() == text.len(),
        resolve_entries(object, offsets, text, entries, n).text[at] == text[at],
    decreases n,
{
    if n > 0 {
        lemma_text_changes_only_at_loads(object, offsets, text, entries, (n - 1) as nat, at);
        lemma_entry_changes_only_its_load(
            object,
            offsets,
            resolve_entries(object, offsets, text, entries, (n - 1) as nat),
            entries[n - 1],
        );
    }
}

/// The entry names a function.
pub open spec fn targets_function(object: ObjectFileView, entry: Relocation) -> bool {
    entry.symbol < object.symbols.len() && symbol_kind(object.symbols[entry.symbol as int].kind)
        == SymbolKind::Function
}

/// How many of the first `n` entries name a function.
pub open spec fn calls_before(object: ObjectFileView, entries: Seq<Relocation>, n: nat) -> nat
    decreases n,
{
    if n == 0 {
        0
    } else if targets_function(object, entries[n - 1]) {
        calls_before(object, entries, (n - 1) as nat) + 1
    } else {
        calls_before(object, entries, (n - 1) as nat)
    }
}

/// The call table follows the relocation entries: where the first `n`
/// entries are resolved without error, there is one call record for each
/// entry among them that names a function, in the order of the entries, and
/// the record of such an entry holds the entry's offset and the value of
/// its symbol.
pub proof fn lemma_calls_follow_entries(
    object: ObjectFileView,
    offsets: Map<Seq<u8>, nat>,
    text: Seq<u8>,
    entries: Seq<Relocation>,
    n: nat,
    i: int,
)
    requires
        n <= entries.len(),
        resolve_entries(object, offsets, text, entries, n).error is None,
        0 <= i < n,
        targets_function(object, entries[i]),
    ensures
        ({
            let resolution = resolve_entries(object, offsets, text, entries, n);
            let place = calls_before(object, entries, i as nat) as int;
            &&& resolution.calls.len() == calls_before(object, entries, n)
            &&& place < resolution.calls.len()
            &&& resolution.calls[place].instruction_offset == entries[i].offset
            &&& resolution.calls[place].function_text_offset
                == object.symbols[entries[i].symbol as int].value
        }),
    decreases n,
{
    lemma_call_count(object, offsets, text, entries, n);
    lemma_call_count(object, offsets, text, entries, (n - 1) as nat);
    lemma_calls_before_grows(object, entries, i as nat, (n - 1) as nat);
    if i < n - 1 {
        lemma_calls_follow_entries(object, offsets, text, entries, (n - 1) as nat, i);
    }
}

/// Where the first `n` entries are resolved without error, there is one
/// call record for each entry among them that names a function.
pub proof fn lemma_call_count(
    object: ObjectFileView,
    offsets: Map<Seq<u8>, nat>,
    text: Seq<u8>,
    entries: Seq<Relocation>,
    n: nat,
)
    requires
        n <= entries.len(),
        resolve_entries(object, offsets, text, entries, n).error is None,
    ensures
        resolve_entries(object, offsets, text, entries, n).calls.len() == calls_before(
            object,
            entries,
            n,
        ),
    decreases n,
{
    if n > 0 {
        lemma_call_count(object, offsets, text, entries, (n - 1) as nat);
    }
}

/// The number of calls before an entry does not fall as the entry moves on.
proof fn lemma_calls_before_grows(object: ObjectFileView, entries: Seq<Relocation>, n: nat, m: nat)
    requires
        n <= m,
    ensures
        calls_before(object, entries, n) <= calls_before(object, entries, m),
        n < m && targets_function(object, entries[n as int]) ==> calls_before(object, entries, n)
            < calls_before(object, entries, m),
    decreases m - n,
{
    if n < m {
        lemma_calls_before_grows(object, entries, n, (m - 1) as nat);
    }
}

/// Resolution keeps the length of the text.
pub proof fn lemma_resolution_keeps_length(
    object: ObjectFileView,
    offsets: Map<Seq<u8>, nat>,
    text: Seq<u8>,
    entries: Seq<Relocation>,
    n: nat,
)
    ensures
        resolve_entries(object, offsets, text, entries, n).text.len() == text.len(),
    decreases n,
{
    if n > 0 {
        lemma_resolution_keeps_length(object, offsets, text, entries, (n - 1) as nat);
        lemma_entry_changes_only_its_load(
            object,
            offsets,
            resolve_entries(object, offsets, text, entries, (n - 1) as nat),
            entries[n - 1],
        );
    }
}

/// Every relocation entry of the object, one relocation section after the
/// other.
pub fn relocation_entries(object: &ObjectFile) -> (r: Vec<Relocation>)
    ensures
        r@ == all_entries(object@),
{
    let mut out: Vec<Relocation> = Vec::new();
    let mut i: usize = 0;
    while i < object.relocations.len()
        invariant
            i <= object.relocations.len(),
            out@ == entries_of(object@.relocations, i as nat),
        decreases object.relocations.len() - i,
    {
        let section = &object.relocations[i];
        let mut j: usize = 0;
        while j < section.entries.len()
            invariant
                j <= section.entries.len(),
                out@ == entries_of(object@.relocations, i as nat) + section.entries@.take(j as int),
            decreases section.entries.len() - j,
        {
            out.push(section.entries[j]);
            assert(section.entries@.take(j + 1) == section.entries@.take(j as int).push(
                section.entries@[j as int],
            ));
            j += 1;
        }
        assert(section.entries@.take(j as int) == section.entries@);
        i += 1;
    }
    out
}

/// The name of the section that owns the symbol, where there is one.
fn owner_of<'a>(object: &'a ObjectFile, symbol: &Symbol) -> (r: Option<&'a Vec<u8>>)
    ensures
        match r {
            Some(name) => owner_name(object@, symbol@) == Some(name@),
            None => owner_name(object@, symbol@) is None,
        },
{
    if symbol.section < object.sections.len() {
        object.sections[symbol.section].name.as_ref()
    } else {
        None
    }
}

/// The opcode that a resolved load gets.
fn opcode_for(owner: Option<&Vec<u8>>) -> (r: u8)
    ensures
        r == load_opcode(
            match owner {
                Some(name) => Some(name@),
                None => None,
            },
        ),
{
    match owner {
        Some(name) => if contains(name.as_slice(), ".rodata.str".as_bytes()) {
            LDDWR_OPCODE
        } else {
            LDDWD_OPCODE
        },
        None => LDDWD_OPCODE,
    }
}

/// Patches the load at `at`, if a wide load stands there: the opcode becomes
/// `opcode` and `add` is added to the low immediate. Fails, and leaves the
/// text as it is, where the sum does not fit the immediate.
pub fn patch_load_at(text: &mut Vec<u8>, at: u64, add: u64, opcode: u8) -> (r: Result<(), Error>)
    ensures
        match patched_text(old(text)@, at, add as nat, opcode) {
            Ok(t) => r is Ok && final(text)@ == t,
            Err(e) => r == Err::<(), Error>(e) && final(text)@ == old(text)@,
        },
{
    if !is_lddw_at(text.as_slice(), at) {
        return Ok(());
    }
    assert(at + 16 <= text@.len());
    let site: usize = at as usize;
    let immediate: u32 = read_lddw_immediate(text.as_slice(), site);
    if add > (u32::MAX - immediate) as u64 {
        return Err(Error::Overflow(Field::Immediate));
    }
    write_lddw(text.as_mut_slice(), site, opcode, immediate + add as u32);
    Ok(())
}

/// Resolves every relocation entry of the object against `text`.
///
/// Entries are taken in order, one relocation section after the other, each
/// as [`resolve_entry`] says: loads of data objects and of string literals
/// are patched in `text`, calls of functions are returned as records, and
/// entries that refer to nothing this image places are counted. Fails with
/// [`Error::Overflow`] at the first entry whose values do not fit their
/// fields; `text` then holds the patches made before.
pub fn resolve_relocations(
    object: &ObjectFile,
    text: &mut Vec<u8>,
    offsets: &StringLiteralOffsets,
) -> (r: Result<Resolved, Error>)
    ensures
        final(text)@ == resolve_all(object@, offsets@, old(text)@).text,
        match resolve_all(object@, offsets@, old(text)@).error {
            Some(e) => r == Err::<Resolved, Error>(e),
            None => r matches Ok(resolved) && resolved.calls@ == resolve_all(
                object@,
                offsets@,
                old(text)@,
            ).calls && resolved.skipped == resolve_all(object@, offsets@, old(text)@).skipped,
        },
        final(text)@.len() == old(text)@.len(),
{
    proof {
        lemma_resolution_keeps_length(
            object@,
            offsets@,
            old(text)@,
            all_entries(object@),
            all_entries(object@).len(),
        );
    }
    let entries = relocation_entries(object);
    let mut calls: Vec<RelocatedCall> = Vec::new();
    let mut skipped: usize = 0;
    let mut i: usize = 0;
    while i < entries.len()
        invariant
            i <= entries.len(),
            entries@ == all_entries(object@),
            skipped <= i,
            resolve_entries(object@, offsets@, old(text)@, entries@, i as nat) == (Resolution {
                text: text@,
                calls: calls@,
                skipped: skipped as nat,
                error: None,
            }),
        decreases entries.len() - i,
    {
        let entry = entries[i];
        let ghost before = resolve_entries(object@, offsets@, old(text)@, entries@, i as nat);
        let ghost after = resolve_entries(object@, offsets@, old(text)@, entries@, (i + 1) as nat);
        assert(after == resolve_entry(object@, offsets@, before, entry));
        let mut failure: Option<Error> = None;
        if entry.symbol >= object.symbols.len() {
            skipped += 1;
        } else {
            let symbol = &object.symbols[entry.symbol];
            let owner = owner_of(object, symbol);
            match symbol.kind() {
                SymbolKind::Function => {
                    if entry.offset > u32::MAX as u64 {
                        failure = Some(Error::Overflow(Field::CallSite));
                    } else if symbol.value > u32::MAX as u64 {
                        failure = Some(Error::Overflow(Field::CallTarget));
                    } else {
                        calls.push(
                            RelocatedCall {
                                instruction_offset: entry.offset as u32,
                                function_text_offset: symbol.value as u32,
                            },
                        );
                    }
                },
                SymbolKind::Section => {
                    let recorded = match owner {
                        Some(name) => offsets.get(name.as_slice()),
                        None => None,
                    };
                    match recorded {
                        Some(offset) => {
                            if let Err(e) = patch_load_at(
                                text,
                                entry.offset,
                                offset as u64,
                                opcode_for(owner),
                            ) {
                                failure = Some(e);
                            }
                        },
                        None => {
                            skipped += 1;
                        },
                    }
                },
                SymbolKind::Object => {
                    if let Err(e) = patch_load_at(
                        text,
                        entry.offset,
                        symbol.value,
                        opcode_for(owner),
                    ) {
                        failure = Some(e);
                    }
                },
                SymbolKind::Other => {
                    skipped += 1;
                },
            }
        }
        if let Some(e) = failure {
            proof {
                lemma_error_is_kept(
                    object@,
                    offsets@,
                    old(text)@,
                    entries@,
                    (i + 1) as nat,
                    entries@.len(),
                );
                lemma_resolution_keeps_length(
                    object@,
                    offsets@,
                    old(text)@,
                    entries@,
                    entries@.len(),
                );
            }
            return Err(e);
        }
        i += 1;
    }
    Ok(Resolved { calls, skipped })
}

/// Once an entry has failed, the entries after it change nothing.
proof fn lemma_error_is_kept(
    object: ObjectFileView,
    offsets: Map<Seq<u8>, nat>,
    text: Seq<u8>,
    entries: Seq<Relocation>,
    n: nat,
    m: nat,
)
    requires
        n <= m,
        resolve_entries(object, offsets, text, entries, n).error is Some,
    ensures
        resolve_entries(object, offsets, text, entries, m) == resolve_entries(
            object,
            offsets,
            text,
            entries,
            n,
        ),
    decreases m - n,
{
    if n < m {
        lemma_error_is_kept(object, offsets, text, entries, n, (m - 1) as nat);
    }
}

} // verus!
