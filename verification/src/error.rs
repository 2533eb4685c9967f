//! Why an object file cannot be turned into a program for the VM.

use vstd::prelude::*;

verus! {

/// The fixed-width field that a value was too large for.
#[derive(Debug, Clone, Copy, PartialEq, Eq, Structural)]
pub enum Field {
    /// The number of records in the function table.
    FunctionCount,
    /// The total size of the function names appended to the read-only data.
    FunctionNames,
    /// `name_offset` of a function record.
    NameOffset,
    /// `location_offset` of a function record.
    LocationOffset,
    /// The size of the text region.
    TextSize,
    /// One of the region lengths stored in the header.
    RegionLength,
    /// `instruction_offset` of a call record.
    CallSite,
    /// `function_text_offset` of a call record.
    CallTarget,
    /// The low immediate of a patched load instruction.
    Immediate,
    /// The address that a relocated instruction refers to.
    Address,
}

/// Why an object file could not be turned into a binary image.
#[derive(Debug, Clone, Copy, PartialEq, Eq, Structural)]
pub enum Error {
    /// The input bytes are not a valid object file.
    Parse,
    /// The object has no `.text` section.
    MissingText,
    /// A section's byte range does not lie inside the input buffer.
    SectionOutOfBounds,
    /// The length of `.text` is not a multiple of the instruction size.
    UnalignedText,
    /// Two string literal pools carry the same name.
    DuplicateLiteralPool,
    /// A global function symbol has no name in the string table.
    UnnamedFunction,
    /// A symbol or a relocation section names a section that the object
    /// does not have.
    UnknownSection,
    /// A relocation names a place outside the program, or one too close to
    /// its end to hold the instruction that stands there.
    RelocationOutOfBounds,
    /// An image is shorter than its header says.
    TruncatedImage,
    /// A value does not fit the field that has to hold it.
    Overflow(Field),
}

} // verus!
