//! Verification ahead of time: before a program is signed and sent, every
//! call of a helper function in it must name a helper that the program is
//! allowed to call.

use vstd::prelude::*;
use crate::assembler::{HEADER_SIZE, header_at, read_header};
use crate::bytes::{append_range, lemma_u32_at_subrange, read_u32_le, u32_at};
use crate::configuration::{BinaryFileLayout, HelperAccessVerification};
use crate::error::Error;
use crate::instruction::{CALL_OPCODE, INSTRUCTION_SIZE};
use crate::object::parsed_object;
use crate::pipeline::{apply_layout, extract_text_section, layout_program, text_only};

verus! {

/// A call of a helper function that the program is not allowed to call.
#[derive(Debug, Clone, Copy, PartialEq, Eq, Structural)]
pub struct DisallowedCall {
    /// The offset of the call instruction in the text.
    pub offset: usize,
    /// The ID of the helper function that is called.
    pub helper: u32,
}

/// Why a program did not pass the verification.
#[derive(Debug, Clone, Copy, PartialEq, Eq, Structural)]
pub enum VerificationError {
    /// The text of the program cannot be found.
    Program(Error),
    /// The program calls a helper function that it may not call.
    Disallowed(DisallowedCall),
}

/// The instruction in slot `slot` of the text calls a helper function: its
/// opcode is that of a call, and its source register is zero, which marks
/// the immediate as the ID of a helper.
pub open spec fn is_helper_call(text: Seq<u8>, slot: int) -> bool {
    text[INSTRUCTION_SIZE * slot] == CALL_OPCODE && text[INSTRUCTION_SIZE * slot + 1] / 16 == 0
}

/// The ID of the helper function that the call in slot `slot` names.
pub open spec fn called_helper(text: Seq<u8>, slot: int) -> u32 {
    u32_at(text, INSTRUCTION_SIZE * slot + 4) as u32
}

/// The instruction in slot `slot` calls no helper function, or one of the
/// allowed ones.
pub open spec fn slot_is_allowed(text: Seq<u8>, slot: int, allowed: Seq<u32>) -> bool {
    is_helper_call(text, slot) ==> allowed.contains(called_helper(text, slot))
}

/// How many whole instruction slots the text has.
pub open spec fn slots(text: Seq<u8>) -> int {
    text.len() as int / INSTRUCTION_SIZE as int
}

/// The first call at or behind slot `slot` that names a helper function
/// which is not allowed, if there is one.
pub open spec fn disallowed_from(text: Seq<u8>, allowed: Seq<u32>, slot: int) -> Option<
    DisallowedCall,
>
    decreases slots(text) - slot,
{
    if slot < 0 || slot >= slots(text) {
        None
    } else if !slot_is_allowed(text, slot, allowed) {
        Some(
            DisallowedCall {
                offset: (INSTRUCTION_SIZE * slot) as usize,
                helper: called_helper(text, slot),
            },
        )
    } else {
        disallowed_from(text, allowed, slot + 1)
    }
}

/// The first call in the text that names a helper function which is not
/// allowed, if there is one.
pub open spec fn first_disallowed(text: Seq<u8>, allowed: Seq<u32>) -> Option<DisallowedCall> {
    disallowed_from(text, allowed, 0)
}

/// The call that is found is the first that is not allowed: every slot
/// before it, from `from` on, is allowed; and where none is found, every
/// slot from `from` on is allowed.
pub proof fn lemma_first_disallowed_is_first(text: Seq<u8>, allowed: Seq<u32>, from: int)
    requires
        0 <= from,
        text.len() <= usize::MAX,
    ensures
        match disallowed_from(text, allowed, from) {
            Some(call) => {
                let slot = call.offset as int / INSTRUCTION_SIZE as int;
                &&& from <= slot < slots(text)
                &&& call.offset == INSTRUCTION_SIZE * slot
                &&& !slot_is_allowed(text, slot, allowed)
                &&& call.helper == called_helper(text, slot)
                &&& forall|earlier: int|
                    from <= earlier < slot ==> slot_is_allowed(text, earlier, allowed)
            },
            None => forall|slot: int|
                from <= slot < slots(text) ==> slot_is_allowed(text, slot, allowed),
        },
    decreases slots(text) - from,
{
    if from < slots(text) && slot_is_allowed(text, from, allowed) {
        lemma_first_disallowed_is_first(text, allowed, from + 1);
    }
}

/// The place of the text in a program of the given layout: where it starts
/// and how long it is, inside the program's bytes.
pub open spec fn image_text_range(image: Seq<u8>) -> Result<(int, int), Error> {
    let header = header_at(image);
    let start = HEADER_SIZE + header.data_len + header.rodata_len;
    if image.len() < HEADER_SIZE || image.len() < start + header.text_len {
        Err(Error::TruncatedImage)
    } else {
        Ok((start, start + header.text_len))
    }
}

/// Whether `id` is among `allowed`.
fn is_allowed(allowed: &[u32], id: u32) -> (r: bool)
    ensures
        r == allowed@.contains(id),
{
    let mut i: usize = 0;
    while i < allowed.len()
        invariant
            i <= allowed.len(),
            forall|k: int| 0 <= k < i ==> allowed@[k] != id,
        decreases allowed.len() - i,
    {
        if allowed[i] == id {
            return true;
        }
        i += 1;
    }
    false
}

/// Checks every call of a helper function in `text` against the list of
/// allowed helpers. Succeeds where every instruction slot is allowed;
/// otherwise names the first call, by its offset, that is not, and the
/// helper that it calls.
pub fn check_helper_calls(text: &[u8], allowed: &[u32]) -> (r: Result<(), DisallowedCall>)
    ensures
        r == match first_disallowed(text@, allowed@) {
            Some(call) => Err::<(), DisallowedCall>(call),
            None => Ok(()),
        },
        match r {
            Ok(()) => forall|slot: int|
                0 <= slot < slots(text@) ==> slot_is_allowed(text@, slot, allowed@),
            Err(call) => {
                let slot = call.offset as int / INSTRUCTION_SIZE as int;
                &&& call.offset == INSTRUCTION_SIZE * slot
                &&& 0 <= slot < slots(text@)
                &&& !slot_is_allowed(text@, slot, allowed@)
                &&& call.helper == called_helper(text@, slot)
                &&& forall|earlier: int|
                    0 <= earlier < slot ==> slot_is_allowed(text@, earlier, allowed@)
            },
        },
{
    let len: usize = text.len();
    let count: usize = len / INSTRUCTION_SIZE;
    let mut slot: usize = 0;
    while slot < count
        invariant
            slot <= count,
            len == text@.len(),
            count == slots(text@),
            first_disallowed(text@, allowed@) == disallowed_from(text@, allowed@, slot as int),
            forall|earlier: int| 0 <= earlier < slot ==> slot_is_allowed(text@, earlier, allowed@),
        decreases count - slot,
    {
        assert(slot * 8 + 8 <= len);
        let at: usize = slot * INSTRUCTION_SIZE;
        if text[at] == CALL_OPCODE && text[at + 1] / 16 == 0 {
            proof {
                lemma_u32_at_subrange(text@, at + 4);
            }
            let helper: u32 = read_u32_le(text, at + 4);
            if !is_allowed(allowed, helper) {
                return Err(DisallowedCall { offset: at, helper });
            }
        }
        slot += 1;
    }
    Ok(())
}

/// Copies the text out of an image with a header. Fails with
/// [`Error::TruncatedImage`] where the image is shorter than its header, or
/// than the regions that its header measures.
pub fn image_text(image: &[u8]) -> (r: Result<Vec<u8>, Error>)
    ensures
        match image_text_range(image@) {
            Ok((start, end)) => r matches Ok(text) && text@ == image@.subrange(start, end),
            Err(e) => r == Err::<Vec<u8>, Error>(e),
        },
{
    let header = match read_header(image) {
        Some(header) => header,
        None => {
            return Err(Error::TruncatedImage);
        },
    };
    let start: u64 = HEADER_SIZE as u64 + header.data_len as u64 + header.rodata_len as u64;
    let end: u64 = start + header.text_len as u64;
    if end > image.len() as u64 {
        return Err(Error::TruncatedImage);
    }
    let mut text: Vec<u8> = Vec::new();
    append_range(&mut text, image, start as usize, end as usize);
    Ok(text)
}

/// The text of a program of the given layout: the program itself where it
/// is nothing but text, the region that the header measures where it has a
/// header, and the `.text` section where it is an object file.
pub open spec fn program_text(
    layout: BinaryFileLayout,
    program: Seq<u8>,
) -> Result<Seq<u8>, Error> {
    match layout {
        BinaryFileLayout::OnlyTextSection => Ok(program),
        BinaryFileLayout::FemtoContainersHeader
        | BinaryFileLayout::ExtendedHeader => match image_text_range(program) {
            Ok((start, end)) => Ok(program.subrange(start, end)),
            Err(e) => Err(e),
        },
        BinaryFileLayout::RawObjectFile => match parsed_object(program) {
            None => Err(Error::Parse),
            Some(object) => text_only(object, program),
        },
    }
}

/// Copies the text out of a program of the given layout.
pub fn text_of_program(layout: BinaryFileLayout, program: &[u8]) -> (r: Result<Vec<u8>, Error>)
    ensures
        match program_text(layout, program@) {
            Ok(text) => r matches Ok(v) && v@ == text,
            Err(e) => r == Err::<Vec<u8>, Error>(e),
        },
{
    match layout {
        BinaryFileLayout::OnlyTextSection => {
            let mut text: Vec<u8> = Vec::new();
            append_range(&mut text, program, 0, program.len());
            assert(program@.subrange(0, program@.len() as int) == program@);
            Ok(text)
        },
        BinaryFileLayout::FemtoContainersHeader => image_text(program),
        BinaryFileLayout::ExtendedHeader => image_text(program),
        BinaryFileLayout::RawObjectFile => extract_text_section(program),
    }
}

/// What verifying a program of the given layout ahead of time gives: the
/// error of finding its text, or the first call of a helper function that
/// is not allowed, or nothing to object to.
pub open spec fn verification_outcome(
    layout: BinaryFileLayout,
    program: Seq<u8>,
    allowed: Seq<u32>,
) -> Result<(), VerificationError> {
    match program_text(layout, program) {
        Err(e) => Err(VerificationError::Program(e)),
        Ok(text) => match first_disallowed(text, allowed) {
            Some(call) => Err(VerificationError::Disallowed(call)),
            None => Ok(()),
        },
    }
}

/// Verifies a program of the given layout ahead of time: finds its text
/// and checks every call of a helper function in it against the list of
/// allowed helpers. Fails where the text cannot be found, and where a call
/// is not allowed, with the first such call.
pub fn verify_program(layout: BinaryFileLayout, program: &[u8], allowed: &[u32]) -> (r: Result<
    (),
    VerificationError,
>)
    ensures
        r == verification_outcome(layout, program@, allowed@),
{
    let text = match text_of_program(layout, program) {
        Ok(text) => text,
        Err(e) => {
            return Err(VerificationError::Program(e));
        },
    };
    match check_helper_calls(text.as_slice(), allowed) {
        Ok(()) => Ok(()),
        Err(call) => Err(VerificationError::Disallowed(call)),
    }
}

/// What postprocessing gives: the program of the given layout, where
/// either the calls of helper functions are not to be verified ahead of
/// time, or they are and the program passes; the error of making the
/// program, or of the verification, otherwise.
pub open spec fn postprocessed(
    layout: BinaryFileLayout,
    program: Seq<u8>,
    allowed: Seq<u32>,
    verification: HelperAccessVerification,
) -> Result<Seq<u8>, VerificationError> {
    match layout_program(layout, program) {
        Err(e) => Err(VerificationError::Program(e)),
        Ok(made) => if verification != HelperAccessVerification::AheadOfTime {
            Ok(made)
        } else {
            match verification_outcome(layout, made, allowed) {
                Err(e) => Err(e),
                Ok(()) => Ok(made),
            }
        },
    }
}

/// Makes the program of the given layout from the bytes of an object file
/// and, where the calls of helper functions are verified ahead of time,
/// hands it out only if every such call names an allowed helper.
pub fn postprocess(
    layout: BinaryFileLayout,
    program: &[u8],
    allowed: &[u32],
    verification: HelperAccessVerification,
) -> (r: Result<Vec<u8>, VerificationError>)
    ensures
        match postprocessed(layout, program@, allowed@, verification) {
            Ok(made) => r matches Ok(v) && v@ == made,
            Err(e) => r == Err::<Vec<u8>, VerificationError>(e),
        },
{
    let made = match apply_layout(layout, program) {
        Ok(made) => made,
        Err(e) => {
            return Err(VerificationError::Program(e));
        },
    };
    match verification {
        HelperAccessVerification::AheadOfTime => match verify_program(
            layout,
            made.as_slice(),
            allowed,
        ) {
            Ok(()) => Ok(made),
            Err(e) => Err(e),
        },
        _ => Ok(made),
    }
}

} // verus!
