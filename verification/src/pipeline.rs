//! From an object file to the image that the VM loads.
//!
//! The regions are produced in a fixed order. First the text, the data and
//! the read-only data are copied out. Then the string literal pools are
//! merged into the read-only data, which fixes the offset of each. Then the
//! relocations are resolved against those offsets. Only then are the
//! function names appended to the read-only data, behind everything that a
//! patched instruction refers to.

use vstd::prelude::*;
use vstd::string::*;
use crate::assembler::{
    HEADER_SIZE,
    assemble,
    assembly_failure,
    header_at,
    image_of,
    lemma_image_is_consistent,
    lemma_padded,
    padded,
    well_formed_image,
};
use crate::bytes::{append_range, lemma_prefix_subrange};
use crate::configuration::BinaryFileLayout;
use crate::error::{Error, Field};
use crate::functions::{
    FIELD_MAX,
    FunctionSymbol,
    build_function_catalog,
    catalog_all,
    lemma_catalog_appends,
};
use crate::instruction::INSTRUCTION_SIZE;
use crate::literals::{
    absorb_all,
    absorb_string_literals,
    is_literal_pool,
    lemma_pools_lie_at_their_offsets,
};
use crate::object::{ObjectFile, ObjectFileView, parse_object, parsed_object};
use crate::relocation::{RelocatedCall, resolve_all, resolve_relocations};
use crate::sections::{
    contents_view,
    data_section_name,
    extract_from_object,
    find_section,
    first_section,
    read_section,
    rodata_section_name,
    section_bytes,
    section_contents,
    section_in_bounds,
    text_section_name,
};

verus! {

/// An image, and how many relocation entries were passed over while it was
/// made.
#[derive(Debug, Clone, PartialEq, Eq)]
pub struct Assembled {
    pub image: Vec<u8>,
    pub skipped_relocations: usize,
}

/// The regions of a program, ready to be laid out.
pub struct Regions {
    pub data: Seq<u8>,
    pub rodata: Seq<u8>,
    pub text: Seq<u8>,
    pub functions: Seq<FunctionSymbol>,
    pub calls: Seq<RelocatedCall>,
    pub skipped: nat,
}

/// The text of an object: the bytes of its `.text` section, which must be
/// there, lie inside the file, and hold a whole number of instructions, at
/// most 65535 bytes of them.
pub open spec fn object_text(object: ObjectFileView, bytes: Seq<u8>) -> Result<Seq<u8>, Error> {
    match first_section(object.sections, text_section_name()) {
        None => Err(Error::MissingText),
        Some(i) => {
            let section = object.sections[i];
            if !section_in_bounds(section, bytes.len()) {
                Err(Error::SectionOutOfBounds)
            } else if section.size % INSTRUCTION_SIZE as u64 != 0 {
                Err(Error::UnalignedText)
            } else if section.size > FIELD_MAX {
                Err(Error::Overflow(Field::TextSize))
            } else {
                Ok(section_bytes(section, bytes))
            }
        },
    }
}

/// The regions that an object file gives, or the first error on the way.
pub open spec fn object_regions(object: ObjectFileView, bytes: Seq<u8>) -> Result<Regions, Error> {
    match object_text(object, bytes) {
        Err(e) => Err(e),
        Ok(text) => match section_contents(object.sections, bytes, data_section_name()) {
            Err(e) => Err(e),
            Ok(data) => match section_contents(object.sections, bytes, rodata_section_name()) {
                Err(e) => Err(e),
                Ok(rodata) => {
                    let absorbed = absorb_all(object.sections, bytes, rodata);
                    let resolution = resolve_all(object, absorbed.offsets, text);
                    let catalog = catalog_all(object.symbols, absorbed.rodata);
                    if absorbed.error is Some {
                        Err(absorbed.error->0)
                    } else if resolution.error is Some {
                        Err(resolution.error->0)
                    } else if catalog.error is Some {
                        Err(catalog.error->0)
                    } else {
                        Ok(
                            Regions {
                                data,
                                rodata: catalog.rodata,
                                text: resolution.text,
                                functions: catalog.functions,
                                calls: resolution.calls,
                                skipped: resolution.skipped,
                            },
                        )
                    }
                },
            },
        },
    }
}

/// The image that an object file gives, with the number of relocation
/// entries passed over, or the first error on the way.
pub open spec fn object_image(
    object: ObjectFileView,
    bytes: Seq<u8>,
) -> Result<(Seq<u8>, nat), Error> {
    match object_regions(object, bytes) {
        Err(e) => Err(e),
        Ok(regions) => match assembly_failure(
            regions.data,
            regions.rodata,
            regions.text,
            regions.functions,
        ) {
            Some(e) => Err(e),
            None => Ok(
                (
                    image_of(
                        regions.data,
                        regions.rodata,
                        regions.text,
                        regions.functions,
                        regions.calls,
                    ),
                    regions.skipped,
                ),
            ),
        },
    }
}

/// The offset that a patched load adds is still the place of the string it
/// loads when the image is finished: for every string literal pool of an
/// object that assembles, the read-only data of the image holds the pool's
/// bytes at the offset recorded for it, whatever was appended to the
/// read-only data after the relocations were resolved.
pub proof fn lemma_literals_stay_where_recorded(object: ObjectFileView, bytes: Seq<u8>, i: int)
    requires
        object_image(object, bytes) is Ok,
        0 <= i < object.sections.len(),
        is_literal_pool(object.sections[i]),
    ensures
        ({
            let image = object_image(object, bytes)->Ok_0.0;
            let rodata_at = HEADER_SIZE + header_at(image).data_len;
            let own = section_contents(object.sections, bytes, rodata_section_name())->Ok_0;
            let offsets = absorb_all(object.sections, bytes, own).offsets;
            let name = object.sections[i].name->0;
            let pool_at = rodata_at + offsets[name];
            &&& offsets.contains_key(name)
            &&& own.len() <= offsets[name]
            &&& offsets[name] + object.sections[i].size <= header_at(image).rodata_len
            &&& image.subrange(pool_at, pool_at + object.sections[i].size) == section_bytes(
                object.sections[i],
                bytes,
            )
        }),
{
    let regions = object_regions(object, bytes)->Ok_0;
    let image = object_image(object, bytes)->Ok_0.0;
    let own = section_contents(object.sections, bytes, rodata_section_name())->Ok_0;
    let absorbed = absorb_all(object.sections, bytes, own);
    let name = object.sections[i].name->0;
    let offset = absorbed.offsets[name] as int;
    let size = object.sections[i].size as int;
    lemma_pools_lie_at_their_offsets(object.sections, bytes, own, object.sections.len(), i);
    lemma_catalog_appends(object.symbols, absorbed.rodata, object.symbols.len());
    lemma_padded(regions.rodata);
    lemma_image_is_consistent(
        regions.data,
        regions.rodata,
        regions.text,
        regions.functions,
        regions.calls,
    );
    let rodata_at = HEADER_SIZE + header_at(image).data_len;
    let text_at = rodata_at + header_at(image).rodata_len;
    lemma_prefix_subrange(regions.rodata, absorbed.rodata, offset, offset + size);
    lemma_prefix_subrange(padded(regions.rodata), regions.rodata, offset, offset + size);
    assert(image.subrange(rodata_at + offset, rodata_at + offset + size) =~= image.subrange(
        rodata_at,
        text_at,
    ).subrange(offset, offset + size));
}

/// Copies out the text of the object.
///
/// Fails with [`Error::MissingText`] where the object has no `.text`
/// section, with [`Error::SectionOutOfBounds`] where the section leaves the
/// file, with [`Error::UnalignedText`] where it is not a multiple of 8 bytes
/// long, and with [`Error::Overflow`] where it is longer than 65535 bytes.
pub fn extract_text(object: &ObjectFile, bytes: &[u8]) -> (r: Result<Vec<u8>, Error>)
    ensures
        match object_text(object@, bytes@) {
            Ok(text) => r matches Ok(v) && v@ == text,
            Err(e) => r == Err::<Vec<u8>, Error>(e),
        },
{
    let index = match find_section(object, ".text".as_bytes()) {
        Some(index) => index,
        None => {
            return Err(Error::MissingText);
        },
    };
    let section = &object.sections[index];
    let text = read_section(section, bytes)?;
    if section.size % (INSTRUCTION_SIZE as u64) != 0 {
        return Err(Error::UnalignedText);
    }
    if section.size > FIELD_MAX as u64 {
        return Err(Error::Overflow(Field::TextSize));
    }
    Ok(text)
}

/// Turns a parsed object file into an image.
///
/// The steps and their order are those of [`object_regions`]; the layout is
/// that of [`image_of`]. The first step that fails gives the error.
pub fn assemble_object(object: &ObjectFile, bytes: &[u8]) -> (r: Result<Assembled, Error>)
    ensures
        match object_image(object@, bytes@) {
            Ok((image, skipped)) => r matches Ok(assembled) && assembled.image@ == image
                && assembled.skipped_relocations == skipped,
            Err(e) => r == Err::<Assembled, Error>(e),
        },
        r matches Ok(assembled) ==> well_formed_image(assembled.image@),
{
    let mut text = extract_text(object, bytes)?;
    let data = extract_from_object(object, bytes, ".data".as_bytes())?;
    let mut rodata = extract_from_object(object, bytes, ".rodata".as_bytes())?;
    let offsets = absorb_string_literals(object, bytes, &mut rodata)?;
    let resolved = resolve_relocations(object, &mut text, &offsets)?;
    let functions = build_function_catalog(object, &mut rodata)?;
    let image = assemble(
        data,
        rodata,
        text.as_slice(),
        functions.as_slice(),
        resolved.calls.as_slice(),
    )?;
    Ok(Assembled { image, skipped_relocations: resolved.skipped })
}

/// What the bytes of an object file give: the image and the number of
/// relocation entries passed over, or the first error on the way. The bytes
/// that are no object file give [`Error::Parse`].
pub open spec fn program_image(program: Seq<u8>) -> Result<(Seq<u8>, nat), Error> {
    match parsed_object(program) {
        None => Err(Error::Parse),
        Some(object) => object_image(object, program),
    }
}

/// Turns the bytes of an object file into an image and reports how many
/// relocation entries were passed over.
///
/// The outcome depends on the bytes alone: it is what [`program_image`]
/// says of them, so two runs on the same bytes give the same image, byte
/// for byte, or the same error.
pub fn assemble_with_diagnostics(program: &[u8]) -> (r: Result<Assembled, Error>)
    ensures
        match program_image(program@) {
            Ok((image, skipped)) => r matches Ok(assembled) && assembled.image@ == image
                && assembled.skipped_relocations == skipped,
            Err(e) => r == Err::<Assembled, Error>(e),
        },
        r matches Ok(assembled) ==> well_formed_image(assembled.image@),
{
    let object = parse_object(program)?;
    assemble_object(&object, program)
}

/// Turns the bytes of an object file into an image.
///
/// The outcome depends on the bytes alone: it is what [`program_image`]
/// says of them, so two runs on the same bytes give the same image, byte
/// for byte, or the same error.
pub fn assemble_femtocontainer_binary(program: &[u8]) -> (r: Result<Vec<u8>, Error>)
    ensures
        match program_image(program@) {
            Ok((image, skipped)) => r matches Ok(v) && v@ == image,
            Err(e) => r == Err::<Vec<u8>, Error>(e),
        },
        r matches Ok(v) ==> well_formed_image(v@),
{
    let assembled = assemble_with_diagnostics(program)?;
    Ok(assembled.image)
}

/// The bytes of the `.text` section of an object, which must be there and
/// lie inside the file.
pub open spec fn text_only(object: ObjectFileView, bytes: Seq<u8>) -> Result<Seq<u8>, Error> {
    match first_section(object.sections, text_section_name()) {
        None => Err(Error::MissingText),
        Some(i) => if section_in_bounds(object.sections[i], bytes.len()) {
            Ok(section_bytes(object.sections[i], bytes))
        } else {
            Err(Error::SectionOutOfBounds)
        },
    }
}

/// What a program of the given layout consists of, made from the bytes of
/// an object file: the text alone, the image with a header, or the object
/// file as it is. The layout with the extended header is the image with a
/// header and the tables of functions and calls behind its text, which is
/// the image that [`program_image`] describes.
pub open spec fn layout_program(
    layout: BinaryFileLayout,
    program: Seq<u8>,
) -> Result<Seq<u8>, Error> {
    match layout {
        BinaryFileLayout::RawObjectFile => Ok(program),
        BinaryFileLayout::OnlyTextSection => match parsed_object(program) {
            None => Err(Error::Parse),
            Some(object) => text_only(object, program),
        },
        BinaryFileLayout::FemtoContainersHeader
        | BinaryFileLayout::ExtendedHeader => match program_image(program) {
            Ok((image, skipped)) => Ok(image),
            Err(e) => Err(e),
        },
    }
}

/// The layout has a header in front of its regions.
pub open spec fn has_header(layout: BinaryFileLayout) -> bool {
    layout == BinaryFileLayout::FemtoContainersHeader || layout == BinaryFileLayout::ExtendedHeader
}

/// Copies the `.text` section out of an object file. Fails with
/// [`Error::Parse`] where the bytes are not an object file, with
/// [`Error::MissingText`] where it has no `.text` section and with
/// [`Error::SectionOutOfBounds`] where the section leaves the file.
pub fn extract_text_section(program: &[u8]) -> (r: Result<Vec<u8>, Error>)
    ensures
        contents_view(r) == match parsed_object(program@) {
            None => Err(Error::Parse),
            Some(object) => text_only(object, program@),
        },
{
    let object = parse_object(program)?;
    match find_section(&object, ".text".as_bytes()) {
        None => Err(Error::MissingText),
        Some(index) => read_section(&object.sections[index], program),
    }
}

/// Makes the program of the given layout from the bytes of an object file.
///
/// The raw object file is handed back as it is, without a look at it. For
/// the other layouts the bytes must be an object file, or the outcome is
/// [`Error::Parse`]; what is made of it is said by [`layout_program`].
pub fn apply_layout(layout: BinaryFileLayout, program: &[u8]) -> (r: Result<Vec<u8>, Error>)
    ensures
        contents_view(r) == layout_program(layout, program@),
        has_header(layout) ==> (r matches Ok(image) ==> well_formed_image(image@)),
{
    match layout {
        BinaryFileLayout::OnlyTextSection => extract_text_section(program),
        BinaryFileLayout::FemtoContainersHeader => assemble_femtocontainer_binary(program),
        BinaryFileLayout::ExtendedHeader => assemble_femtocontainer_binary(program),
        BinaryFileLayout::RawObjectFile => {
            let mut out: Vec<u8> = Vec::new();
            append_range(&mut out, program, 0, program.len());
            assert(program@.subrange(0, program@.len() as int) == program@);
            Ok(out)
        },
    }
}

} // verus!
