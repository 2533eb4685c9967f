//! Finding the sections of an object file by name and copying them out.

use vstd::prelude::*;
use vstd::string::*;
use crate::bytes::{append_range, bytes_equal};
use crate::error::Error;
use crate::object::{ObjectFile, Section, SectionView, parse_object, parsed_object};

verus! {

/// The name of the section that holds the program's instructions.
pub open spec fn text_section_name() -> Seq<u8> {
    ".text".spec_bytes()
}

/// The name of the section that holds the program's writable data.
pub open spec fn data_section_name() -> Seq<u8> {
    ".data".spec_bytes()
}

/// The name of the section that holds the program's read-only data.
pub open spec fn rodata_section_name() -> Seq<u8> {
    ".rodata".spec_bytes()
}

/// The index of the first section at or after `from` that is called `name`.
pub open spec fn first_section_from(sections: Seq<SectionView>, name: Seq<u8>, from: int) -> Option<
    int,
>
    decreases sections.len() - from,
{
    if from < 0 || from >= sections.len() {
        None
    } else if sections[from].name == Some(name) {
        Some(from)
    } else {
        first_section_from(sections, name, from + 1)
    }
}

/// The index of the first section that is called `name`.
pub open spec fn first_section(sections: Seq<SectionView>, name: Seq<u8>) -> Option<int> {
    first_section_from(sections, name, 0)
}

/// The section's byte range lies inside a buffer of `len` bytes.
pub open spec fn section_in_bounds(section: SectionView, len: nat) -> bool {
    section.offset + section.size <= len
}

/// The bytes of the buffer that the section covers.
pub open spec fn section_bytes(section: SectionView, bytes: Seq<u8>) -> Seq<u8> {
    bytes.subrange(section.offset as int, section.offset + section.size)
}

/// The contents of the first section called `name`: empty where there is no
/// such section, an error where its range leaves the buffer.
pub open spec fn section_contents(
    sections: Seq<SectionView>,
    bytes: Seq<u8>,
    name: Seq<u8>,
) -> Result<Seq<u8>,Error> {
    match first_section(sections, name) {
        None => Ok(Seq::empty()),
        Some(i) => if section_in_bounds(sections[i], bytes.len()) {
            Ok(section_bytes(sections[i], bytes))
        } else {
            Err(Error::SectionOutOfBounds)
        },
    }
}

/// The mathematical value of the outcome of an extraction.
pub open spec fn contents_view(r: Result<Vec<u8>, Error>) -> Result<Seq<u8>, Error> {
    match r {
        Ok(v) => Ok(v@),
        Err(e) => Err(e),
    }
}

/// The names of the three sections, byte by byte.
pub proof fn lemma_section_names()
    ensures
        text_section_name() == seq!['.' as u8, 't' as u8, 'e' as u8, 'x' as u8, 't' as u8],
        data_section_name() == seq!['.' as u8, 'd' as u8, 'a' as u8, 't' as u8, 'a' as u8],
        rodata_section_name() == seq![
            '.' as u8,
            'r' as u8,
            'o' as u8,
            'd' as u8,
            'a' as u8,
            't' as u8,
            'a' as u8,
        ],
{
    reveal_strlit(".text");
    reveal_strlit(".data");
    reveal_strlit(".rodata");
    is_ascii_spec_bytes(".text");
    is_ascii_spec_bytes(".data");
    is_ascii_spec_bytes(".rodata");
    assert(text_section_name() =~= seq!['.' as u8, 't' as u8, 'e' as u8, 'x' as u8, 't' as u8]);
    assert(data_section_name() =~= seq!['.' as u8, 'd' as u8, 'a' as u8, 't' as u8, 'a' as u8]);
    assert(rodata_section_name() =~= seq![
        '.' as u8,
        'r' as u8,
        'o' as u8,
        'd' as u8,
        'a' as u8,
        't' as u8,
        'a' as u8,
    ]);
}

/// The first section found is the first one of the table.
pub proof fn lemma_first_section_is_first(sections: Seq<SectionView>, name: Seq<u8>, from: int)
    requires
        0 <= from,
    ensures
        match first_section_from(sections, name, from) {
            Some(i) => {
                &&& from <= i < sections.len()
                &&& sections[i].name == Some(name)
                &&& forall|j: int| from <= j < i ==> sections[j].name != Some(name)
            },
            None => forall|j: int| from <= j < sections.len() ==> sections[j].name != Some(name),
        },
    decreases sections.len() - from,
{
    if from < sections.len() && sections[from].name != Some(name) {
        lemma_first_section_is_first(sections, name, from + 1);
    }
}

/// Whether the section is called `name`.
fn is_named(section: &Section, name: &[u8]) -> (r: bool)
    ensures
        r == (section@.name == Some(name@)),
{
    match &section.name {
        Some(n) => bytes_equal(n.as_slice(), name),
        None => false,
    }
}

/// The index of the first section of the object that is called `name`.
pub fn find_section(object: &ObjectFile, name: &[u8]) -> (r: Option<usize>)
    ensures
        match r {
            Some(i) => i < object.sections.len() && first_section(object@.sections, name@) == Some(
                i as int,
            ),
            None => first_section(object@.sections, name@) is None,
        },
{
    let mut i: usize = 0;
    while i < object.sections.len()
        invariant
            i <= object.sections.len(),
            first_section(object@.sections, name@) == first_section_from(
                object@.sections,
                name@,
                i as int,
            ),
        decreases object.sections.len() - i,
    {
        if is_named(&object.sections[i], name) {
            return Some(i);
        }
        i += 1;
    }
    None
}

/// The bytes of `bytes` that `section` covers, or
/// [`Error::SectionOutOfBounds`] where its range leaves the buffer.
pub fn read_section(section: &Section, bytes: &[u8]) -> (r: Result<Vec<u8>, Error>)
    ensures
        contents_view(r) == if section_in_bounds(section@, bytes@.len()) {
            Ok::<Seq<u8>, Error>(section_bytes(section@, bytes@))
        } else {
            Err(Error::SectionOutOfBounds)
        },
{
    let len: u64 = bytes.len() as u64;
    if section.offset > len || section.size > len - section.offset {
        return Err(Error::SectionOutOfBounds);
    }
    let start: usize = section.offset as usize;
    let end: usize = (section.offset + section.size) as usize;
    let mut out: Vec<u8> = Vec::new();
    append_range(&mut out, bytes, start, end);
    Ok(out)
}

/// Copies out the bytes of the first section of the object that is called
/// `name`. A section that is absent gives no bytes; one whose range leaves
/// the buffer gives [`Error::SectionOutOfBounds`].
pub fn extract_from_object(object: &ObjectFile, bytes: &[u8], name: &[u8]) -> (r: Result<
    Vec<u8>,
    Error,
>)
    ensures
        contents_view(r) == section_contents(object@.sections, bytes@, name@),
{
    match find_section(object, name) {
        None => Ok(Vec::new()),
        Some(i) => read_section(&object.sections[i], bytes),
    }
}

/// Copies the section called `section_name` out of the object file
/// `program`. Fails with [`Error::Parse`] where `program` is not an object
/// file; otherwise the outcome is that of [`extract_from_object`] on what was
/// parsed.
pub fn extract_section(section_name: &str, program: &[u8]) -> (r: Result<Vec<u8>, Error>)
    ensures
        contents_view(r) == match parsed_object(program@) {
            None => Err(Error::Parse),
            Some(object) => section_contents(object.sections, program@, section_name.spec_bytes()),
        },
{
    match parse_object(program) {
        Err(_) => Err(Error::Parse),
        Ok(object) => extract_from_object(&object, program, section_name.as_bytes()),
    }
}

} // verus!
