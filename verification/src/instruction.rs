//! The two instruction forms that relocation rewrites, as byte ranges of the
//! text that holds them.
//!
//! A wide load takes two instruction slots: the opcode is its first byte and
//! the low immediate stands, little-endian, in bytes 4 to 7. A call takes one
//! slot: opcode, registers, a 16-bit offset, and a 32-bit immediate.

use vstd::prelude::*;
use crate::bytes::{
    lemma_u32_at_subrange,
    lemma_u32_le_len,
    lemma_u32_le_round_trip,
    read_u32_le,
    u32_at,
    u32_le,
};

verus! {

/// The size of one instruction slot.
pub const INSTRUCTION_SIZE: usize = 8;

/// The size of a wide load, which takes two slots.
pub const LDDW_INSTRUCTION_SIZE: usize = 16;

/// The opcode of a wide load as the compiler emits it.
pub const LDDW_OPCODE: u8 = 0x18;

/// The opcode of a wide load whose immediate is an offset into the data.
pub const LDDWD_OPCODE: u8 = 0xB8;

/// The opcode of a wide load whose immediate is an offset into the
/// read-only data.
pub const LDDWR_OPCODE: u8 = 0xD8;

/// The opcode of a call.
pub const CALL_OPCODE: u8 = 0x85;

/// A whole wide load, as the compiler emits it, stands at `at` in `text`.
pub open spec fn holds_lddw(text: Seq<u8>, at: int) -> bool {
    &&& 0 <= at
    &&& at + LDDW_INSTRUCTION_SIZE <= text.len()
    &&& text[at] == LDDW_OPCODE
}

/// The low immediate of the wide load at `at`.
pub open spec fn lddw_immediate(text: Seq<u8>, at: int) -> int {
    u32_at(text, at + 4)
}

/// `text` with the opcode and the low immediate of the wide load at `at`
/// replaced, and every other byte as it was.
pub open spec fn with_lddw(text: Seq<u8>, at: int, opcode: u8, immediate: u32) -> Seq<u8> {
    text.subrange(0, at) + seq![opcode] + text.subrange(at + 1, at + 4) + u32_le(immediate)
        + text.subrange(at + 8, text.len() as int)
}

/// `text` with the registers and the immediate of the call at `at` replaced,
/// and every other byte as it was.
pub open spec fn with_call(text: Seq<u8>, at: int, registers: u8, immediate: u32) -> Seq<u8> {
    text.subrange(0, at + 1) + seq![registers] + text.subrange(at + 2, at + 4) + u32_le(immediate)
        + text.subrange(at + 8, text.len() as int)
}

/// `text` with the slot at `at` replaced by a 32-bit value and four zero
/// bytes, and every other byte as it was.
pub open spec fn with_word(text: Seq<u8>, at: int, value: u32) -> Seq<u8> {
    text.subrange(0, at) + u32_le(value) + seq![0u8, 0u8, 0u8, 0u8] + text.subrange(
        at + 8,
        text.len() as int,
    )
}

/// Writes the little-endian bytes of `value` over the four bytes at `at`.
pub fn write_u32_le(text: &mut [u8], at: usize, value: u32)
    requires
        at + 4 <= old(text).len(),
    ensures
        final(text)@.len() == old(text)@.len(),
        final(text)@ == old(text)@.subrange(0, at as int) + u32_le(value) + old(text)@.subrange(
            at + 4,
            old(text)@.len() as int,
        ),
{
    text[at] = (value % 256) as u8;
    text[at + 1] = (value / 256 % 256) as u8;
    text[at + 2] = (value / 65536 % 256) as u8;
    text[at + 3] = (value / 16777216) as u8;
    proof {
        reveal(u32_le);
    }
    assert(text@ =~= old(text)@.subrange(0, at as int) + u32_le(value) + old(text)@.subrange(
        at + 4,
        old(text)@.len() as int,
    ));
}

/// Whether a whole wide load, as the compiler emits it, stands at `at`.
pub fn is_lddw_at(text: &[u8], at: u64) -> (r: bool)
    ensures
        r == holds_lddw(text@, at as int),
{
    text.len() >= LDDW_INSTRUCTION_SIZE && at <= (text.len() - LDDW_INSTRUCTION_SIZE) as u64
        && text[at as usize] == LDDW_OPCODE
}

/// The low immediate of the wide load at `at`.
pub fn read_lddw_immediate(text: &[u8], at: usize) -> (r: u32)
    requires
        at + LDDW_INSTRUCTION_SIZE <= text.len(),
    ensures
        r == lddw_immediate(text@, at as int),
{
    read_u32_le(text, at + 4)
}

/// Replaces the opcode and the low immediate of the wide load at `at`.
pub fn write_lddw(text: &mut [u8], at: usize, opcode: u8, immediate: u32)
    requires
        at + LDDW_INSTRUCTION_SIZE <= old(text).len(),
    ensures
        final(text)@ == with_lddw(old(text)@, at as int, opcode, immediate),
{
    text[at] = opcode;
    write_u32_le(text, at + 4, immediate);
    proof {
        lemma_u32_le_len(immediate);
    }
    assert(text@ =~= with_lddw(old(text)@, at as int, opcode, immediate));
}

/// Replaces the registers and the immediate of the call at `at`.
pub fn write_call(text: &mut [u8], at: usize, registers: u8, immediate: u32)
    requires
        at + INSTRUCTION_SIZE <= old(text).len(),
    ensures
        final(text)@ == with_call(old(text)@, at as int, registers, immediate),
{
    text[at + 1] = registers;
    write_u32_le(text, at + 4, immediate);
    proof {
        lemma_u32_le_len(immediate);
    }
    assert(text@ =~= with_call(old(text)@, at as int, registers, immediate));
}

/// Replaces the slot at `at` by a 32-bit value and four zero bytes.
pub fn write_word(text: &mut [u8], at: usize, value: u32)
    requires
        at + INSTRUCTION_SIZE <= old(text).len(),
    ensures
        final(text)@ == with_word(old(text)@, at as int, value),
{
    write_u32_le(text, at, value);
    write_u32_le(text, at + 4, 0);
    proof {
        lemma_u32_le_len(value);
        reveal(u32_le);
    }
    assert(text@ =~= with_word(old(text)@, at as int, value));
}

/// A rewritten wide load has the new opcode and the new immediate, and the
/// text keeps its length.
pub proof fn lemma_with_lddw_reads_back(text: Seq<u8>, at: int, opcode: u8, immediate: u32)
    requires
        0 <= at,
        at + LDDW_INSTRUCTION_SIZE <= text.len(),
    ensures
        with_lddw(text, at, opcode, immediate).len() == text.len(),
        with_lddw(text, at, opcode, immediate)[at] == opcode,
        lddw_immediate(with_lddw(text, at, opcode, immediate), at) == immediate,
        forall|i: int|
            0 <= i < text.len() && !(i == at || at + 4 <= i < at + 8) ==> with_lddw(
                text,
                at,
                opcode,
                immediate,
            )[i] == text[i],
{
    let patched = with_lddw(text, at, opcode, immediate);
    lemma_u32_le_round_trip(immediate);
    lemma_u32_at_subrange(patched, at + 4);
    assert(patched.subrange(at + 4, at + 8) =~= u32_le(immediate));
}

} // verus!
