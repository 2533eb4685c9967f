//! String literal pools: the sections in which the compiler collects the
//! string literals of a program, their merging into the read-only data, and
//! where each one lies there.

use vstd::prelude::*;
use vstd::string::*;
use crate::bytes::{append_range, bytes_equal, contains, contains_bytes};
use crate::error::Error;
use crate::object::{ObjectFile, Section, SectionView};
use crate::sections::{section_bytes, section_in_bounds};

verus! {

/// What the name of every string literal pool contains.
pub open spec fn literal_marker() -> Seq<u8> {
    ".rodata.str".spec_bytes()
}

/// The section is a string literal pool: it has a name, and the name
/// contains the marker.
pub open spec fn is_literal_pool(section: SectionView) -> bool {
    section.name matches Some(name) && contains_bytes(name, literal_marker())
}

/// Where one string literal pool lies in the read-only data.
#[derive(Debug, Clone, PartialEq, Eq)]
pub struct LiteralOffset {
    /// The name of the pool's section.
    pub name: Vec<u8>,
    /// The offset of the pool's first byte in the read-only data.
    pub offset: usize,
}

/// The offsets of the string literal pools in the read-only data, by the
/// name of the pool's section.
#[derive(Debug, Clone, PartialEq, Eq)]
pub struct StringLiteralOffsets {
    entries: Vec<LiteralOffset>,
}

/// The mapping that a list of entries stands for; a later entry of a name
/// replaces an earlier one.
pub open spec fn entries_map(entries: Seq<LiteralOffset>) -> Map<Seq<u8>, nat>
    decreases entries.len(),
{
    if entries.len() == 0 {
        Map::empty()
    } else {
        entries_map(entries.drop_last()).insert(
            entries.last().name@,
            entries.last().offset as nat,
        )
    }
}

impl View for StringLiteralOffsets {
    type V = Map<Seq<u8>, nat>;

    closed spec fn view(&self) -> Map<Seq<u8>, nat> {
        entries_map(self.entries@)
    }
}

impl StringLiteralOffsets {
    /// The mapping without entries.
    pub fn new() -> (r: Self)
        ensures
            r@ == Map::<Seq<u8>, nat>::empty(),
    {
        StringLiteralOffsets { entries: Vec::new() }
    }

    /// The offset recorded for `name`, if there is one.
    pub fn get(&self, name: &[u8]) -> (r: Option<usize>)
        ensures
            match r {
                Some(offset) => self@.contains_key(name@) && self@[name@] == offset,
                None => !self@.contains_key(name@),
            },
    {
        let mut k: usize = self.entries.len();
        assert(self.entries@.take(k as int) == self.entries@);
        while k > 0
            invariant
                k <= self.entries.len(),
                self@.contains_key(name@) == entries_map(self.entries@.take(k as int)).contains_key(
                    name@,
                ),
                self@.contains_key(name@) ==> self@[name@] == entries_map(
                    self.entries@.take(k as int),
                )[name@],
            decreases k,
        {
            assert(self.entries@.take(k as int).drop_last() == self.entries@.take(k - 1));
            k -= 1;
            if bytes_equal(self.entries[k].name.as_slice(), name) {
                return Some(self.entries[k].offset);
            }
        }
        None
    }

    /// Records `offset` for `name`, in place of what was recorded for it.
    pub fn insert(&mut self, name: Vec<u8>, offset: usize)
        ensures
            final(self)@ == old(self)@.insert(name@, offset as nat),
    {
        self.entries.push(LiteralOffset { name, offset });
        assert(self.entries@.drop_last() == old(self).entries@);
    }
}

/// The read-only data and the offsets while the pools are merged; `error` is
/// set by the first pool that cannot be merged, and nothing changes after.
pub struct Absorption {
    pub rodata: Seq<u8>,
    pub offsets: Map<Seq<u8>, nat>,
    pub error: Option<Error>,
}

/// Merges one section, if it is a string literal pool: its offset is the
/// length of the read-only data so far, and its bytes go behind them.
pub open spec fn absorb_section(
    state: Absorption,
    section: SectionView,
    bytes: Seq<u8>,
) -> Absorption {
    if state.error is Some || !is_literal_pool(section) {
        state
    } else if state.offsets.contains_key(section.name->0) {
        Absorption { error: Some(Error::DuplicateLiteralPool), ..state }
    } else if !section_in_bounds(section, bytes.len()) {
        Absorption { error: Some(Error::SectionOutOfBounds), ..state }
    } else {
        Absorption {
            rodata: state.rodata + section_bytes(section, bytes),
            offsets: state.offsets.insert(section.name->0, state.rodata.len()),
            error: None,
        }
    }
}

/// Merges the string literal pools among the first `n` sections, in the order
/// of the section header table, into `rodata`.
pub open spec fn absorb_sections(
    sections: Seq<SectionView>,
    bytes: Seq<u8>,
    rodata: Seq<u8>,
    n: nat,
) -> Absorption
    decreases n,
{
    if n == 0 {
        Absorption { rodata, offsets: Map::empty(), error: None }
    } else {
        absorb_section(
            absorb_sections(sections, bytes, rodata, (n - 1) as nat),
            sections[n - 1],
            bytes,
        )
    }
}

/// Merges all string literal pools of an object into `rodata`.
pub open spec fn absorb_all(
    sections: Seq<SectionView>,
    bytes: Seq<u8>,
    rodata: Seq<u8>,
) -> Absorption {
    absorb_sections(sections, bytes, rodata, sections.len())
}

/// Merging only appends: the read-only data that was there stays at the
/// front, and every name with an offset is the name of a string literal
/// pool.
pub proof fn lemma_absorb_appends(
    sections: Seq<SectionView>,
    bytes: Seq<u8>,
    rodata: Seq<u8>,
    n: nat,
)
    requires
        n <= sections.len(),
    ensures
        ({
            let absorbed = absorb_sections(sections, bytes, rodata, n);
            &&& rodata.len() <= absorbed.rodata.len()
            &&& absorbed.rodata.subrange(0, rodata.len() as int) == rodata
            &&& forall|name: Seq<u8>| #[trigger]
                absorbed.offsets.contains_key(name) ==> contains_bytes(name, literal_marker())
        }),
    decreases n,
{
    if n == 0 {
        assert(rodata.subrange(0, rodata.len() as int) =~= rodata);
    } else {
        lemma_absorb_appends(sections, bytes, rodata, (n - 1) as nat);
        let before = absorb_sections(sections, bytes, rodata, (n - 1) as nat);
        let after = absorb_sections(sections, bytes, rodata, n);
        assert(after.rodata.subrange(0, rodata.len() as int) =~= before.rodata.subrange(
            0,
            rodata.len() as int,
        ));
    }
}

/// The offset recorded for a pool is where the pool's bytes lie: once the
/// first `n` sections are merged without error, the read-only data holds,
/// at the offset recorded for the name of each pool among them, the bytes of
/// that pool, behind the read-only data that was there before.
pub proof fn lemma_pools_lie_at_their_offsets(
    sections: Seq<SectionView>,
    bytes: Seq<u8>,
    rodata: Seq<u8>,
    n: nat,
    i: int,
)
    requires
        n <= sections.len(),
        absorb_sections(sections, bytes, rodata, n).error is None,
        0 <= i < n,
        is_literal_pool(sections[i]),
    ensures
        ({
            let absorbed = absorb_sections(sections, bytes, rodata, n);
            let name = sections[i].name->0;
            let offset = absorbed.offsets[name] as int;
            &&& absorbed.offsets.contains_key(name)
            &&& rodata.len() <= offset
            &&& offset + sections[i].size <= absorbed.rodata.len()
            &&& absorbed.rodata.subrange(offset, offset + sections[i].size) == section_bytes(
                sections[i],
                bytes,
            )
        }),
    decreases n,
{
    let before = absorb_sections(sections, bytes, rodata, (n - 1) as nat);
    let after = absorb_sections(sections, bytes, rodata, n);
    let name = sections[i].name->0;
    lemma_absorb_appends(sections, bytes, rodata, (n - 1) as nat);
    if i == n - 1 {
        let offset = before.rodata.len() as int;
        assert(after.rodata.subrange(offset, offset + sections[i].size) =~= section_bytes(
            sections[i],
            bytes,
        ));
    } else {
        lemma_pools_lie_at_their_offsets(sections, bytes, rodata, (n - 1) as nat, i);
        let offset = before.offsets[name] as int;
        assert(after.offsets[name] == before.offsets[name]);
        assert(after.rodata.subrange(offset, offset + sections[i].size) =~= before.rodata.subrange(
            offset,
            offset + sections[i].size,
        ));
    }
}

/// The name of the section, if the section is a string literal pool.
pub fn pool_name(section: &Section) -> (r: Option<&Vec<u8>>)
    ensures
        match r {
            Some(name) => is_literal_pool(section@) && section@.name == Some(name@),
            None => !is_literal_pool(section@),
        },
{
    match &section.name {
        Some(name) => if contains(name.as_slice(), ".rodata.str".as_bytes()) {
            Some(name)
        } else {
            None
        },
        None => None,
    }
}

/// Appends every string literal pool of the object to `rodata`, in the order
/// of the section header table, and records for each the offset at which its
/// bytes start. Two pools of one name give
/// [`Error::DuplicateLiteralPool`], a pool whose range leaves the buffer
/// [`Error::SectionOutOfBounds`]; `rodata` then holds what was merged before.
pub fn absorb_string_literals(
    object: &ObjectFile,
    bytes: &[u8],
    rodata: &mut Vec<u8>,
) -> (r: Result<StringLiteralOffsets,Error>)
    ensures
        final(rodata)@ == absorb_all(object@.sections, bytes@, old(rodata)@).rodata,
        match absorb_all(object@.sections, bytes@, old(rodata)@).error {
            Some(e) => r == Err::<StringLiteralOffsets, Error>(e),
            None => r matches Ok(offsets) && offsets@ == absorb_all(
                object@.sections,
                bytes@,
                old(rodata)@,
            ).offsets,
        },
{
    let mut offsets = StringLiteralOffsets::new();
    let len: u64 = bytes.len() as u64;
    let mut i: usize = 0;
    while i < object.sections.len()
        invariant
            i <= object.sections.len(),
            len == bytes.len(),
            absorb_sections(object@.sections, bytes@, old(rodata)@, i as nat) == (Absorption {
                rodata: rodata@,
                offsets: offsets@,
                error: None,
            }),
        decreases object.sections.len() - i,
    {
        let section = &object.sections[i];
        let ghost before = absorb_sections(object@.sections, bytes@, old(rodata)@, i as nat);
        let ghost after = absorb_sections(object@.sections, bytes@, old(rodata)@, (i + 1) as nat);
        assert(after == absorb_section(before, section@, bytes@));
        if let Some(name) = pool_name(section) {
            if offsets.get(name.as_slice()).is_some() {
                proof {
                    lemma_error_is_kept(object@.sections, bytes@, old(rodata)@, (i + 1) as nat);
                }
                return Err(Error::DuplicateLiteralPool);
            }
            if section.offset > len || section.size > len - section.offset {
                proof {
                    lemma_error_is_kept(object@.sections, bytes@, old(rodata)@, (i + 1) as nat);
                }
                return Err(Error::SectionOutOfBounds);
            }
            let at: usize = rodata.len();
            append_range(
                rodata,
                bytes,
                section.offset as usize,
                (section.offset + section.size) as usize,
            );
            offsets.insert(clone_bytes(name), at);
        }
        i += 1;
    }
    Ok(offsets)
}

/// A copy of a byte string.
pub fn clone_bytes(bytes: &Vec<u8>) -> (r: Vec<u8>)
    ensures
        r@ == bytes@,
{
    let mut out: Vec<u8> = Vec::new();
    append_range(&mut out, bytes.as_slice(), 0, bytes.len());
    assert(bytes@.subrange(0, bytes@.len() as int) == bytes@);
    out
}

/// Once a pool has failed to merge, the sections after it change nothing.
proof fn lemma_error_is_kept(sections: Seq<SectionView>, bytes: Seq<u8>, rodata: Seq<u8>, n: nat)
    requires
        n <= sections.len(),
        absorb_sections(sections, bytes, rodata, n).error is Some,
    ensures
        absorb_all(sections, bytes, rodata) == absorb_sections(sections, bytes, rodata, n),
{
    lemma_error_is_kept_until(sections, bytes, rodata, n, sections.len());
}

proof fn lemma_error_is_kept_until(
    sections: Seq<SectionView>,
    bytes: Seq<u8>,
    rodata: Seq<u8>,
    n: nat,
    m: nat,
)
    requires
        n <= m,
        absorb_sections(sections, bytes, rodata, n).error is Some,
    ensures
        absorb_sections(sections, bytes, rodata, m) == absorb_sections(sections, bytes, rodata, n),
    decreases m - n,
{
    if n < m {
        lemma_error_is_kept_until(sections, bytes, rodata, n, (m - 1) as nat);
    }
}

} // verus!
