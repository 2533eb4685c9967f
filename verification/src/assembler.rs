//! The binary image: a header, the data, the read-only data, the text, the
//! function table and the call table, one behind the other.
//!
//! ```text
//! offset 0   magic          u32
//! offset 4   version        u32
//! offset 8   flags          u32
//! offset 12  data_len       u32, bytes, a multiple of 8
//! offset 16  rodata_len     u32, bytes, a multiple of 8
//! offset 20  text_len       u32, bytes, a multiple of 8
//! offset 24  functions_len  u32, the number of function records
//! offset 28  data, read-only data, text,
//!            function records of 6 bytes, call records of 8 bytes
//! ```
//!
//! All integers are little-endian.

use vstd::prelude::*;
use crate::bytes::{
    append_range,
    append_u16_le,
    append_u32_le,
    lemma_u16_le_len,
    lemma_u32_at_subrange,
    lemma_u32_le_len,
    lemma_u32_le_round_trip,
    read_u32_le,
    u16_le,
    u32_at,
    u32_le,
    zeros,
};
use crate::error::{Error, Field};
use crate::functions::FunctionSymbol;
use crate::instruction::INSTRUCTION_SIZE;
use crate::relocation::RelocatedCall;

verus! {

/// The size of the header.
pub const HEADER_SIZE: usize = 28;

/// The size of one record of the function table.
pub const FUNCTION_RECORD_SIZE: usize = 6;

/// The size of one record of the call table.
pub const CALL_RECORD_SIZE: usize = 8;

/// The magic number that every image starts with.
pub const HEADER_MAGIC: u32 = 123;

/// The version of the image format.
pub const HEADER_VERSION: u32 = 0;

/// The flags of the image; none is defined.
pub const HEADER_FLAGS: u32 = 0;

/// The header of an image.
#[derive(Debug, Clone, Copy, PartialEq, Eq, Structural)]
pub struct Header {
    pub magic: u32,
    pub version: u32,
    pub flags: u32,
    /// The length of the data in bytes.
    pub data_len: u32,
    /// The length of the read-only data in bytes.
    pub rodata_len: u32,
    /// The length of the text in bytes.
    pub text_len: u32,
    /// The number of records in the function table.
    pub functions_len: u32,
}

/// The bytes of a header.
pub open spec fn header_bytes(header: Header) -> Seq<u8> {
    u32_le(header.magic) + u32_le(header.version) + u32_le(header.flags) + u32_le(header.data_len)
        + u32_le(header.rodata_len) + u32_le(header.text_len) + u32_le(header.functions_len)
}

/// The header that the first bytes of an image spell.
pub open spec fn header_at(image: Seq<u8>) -> Header {
    Header {
        magic: u32_at(image, 0) as u32,
        version: u32_at(image, 4) as u32,
        flags: u32_at(image, 8) as u32,
        data_len: u32_at(image, 12) as u32,
        rodata_len: u32_at(image, 16) as u32,
        text_len: u32_at(image, 20) as u32,
        functions_len: u32_at(image, 24) as u32,
    }
}

/// How many zero bytes bring a region of `len` bytes to a multiple of the
/// instruction size.
pub open spec fn padding(len: nat) -> nat {
    ((INSTRUCTION_SIZE - len % INSTRUCTION_SIZE as nat) % INSTRUCTION_SIZE as int) as nat
}

/// A region, filled up with zero bytes to a multiple of the instruction
/// size.
pub open spec fn padded(region: Seq<u8>) -> Seq<u8> {
    region + zeros(padding(region.len()))
}

/// The bytes of a function record.
pub open spec fn function_record(function: FunctionSymbol) -> Seq<u8> {
    u16_le(function.name_offset) + u16_le(function.flags) + u16_le(function.location_offset)
}

/// The bytes of a call record.
pub open spec fn call_record(call: RelocatedCall) -> Seq<u8> {
    u32_le(call.instruction_offset) + u32_le(call.function_text_offset)
}

/// The records of the first `n` functions, in order.
pub open spec fn function_table(functions: Seq<FunctionSymbol>, n: nat) -> Seq<u8>
    decreases n,
{
    if n == 0 {
        Seq::empty()
    } else {
        function_table(functions, (n - 1) as nat) + function_record(functions[n - 1])
    }
}

/// The records of the first `n` calls, in order.
pub open spec fn call_table(calls: Seq<RelocatedCall>, n: nat) -> Seq<u8>
    decreases n,
{
    if n == 0 {
        Seq::empty()
    } else {
        call_table(calls, (n - 1) as nat) + call_record(calls[n - 1])
    }
}

/// Why the regions cannot be assembled, if they cannot: the text is not a
/// whole number of instructions, or a length does not fit its header field.
pub open spec fn assembly_failure(
    data: Seq<u8>,
    rodata: Seq<u8>,
    text: Seq<u8>,
    functions: Seq<FunctionSymbol>,
) -> Option<Error> {
    if text.len() % INSTRUCTION_SIZE as nat != 0 {
        Some(Error::UnalignedText)
    } else if padded(data).len() > u32::MAX || padded(rodata).len() > u32::MAX || text.len()
        > u32::MAX {
        Some(Error::Overflow(Field::RegionLength))
    } else if functions.len() > u32::MAX {
        Some(Error::Overflow(Field::FunctionCount))
    } else {
        None
    }
}

/// The header of the image of the given regions.
pub open spec fn header_of(
    data: Seq<u8>,
    rodata: Seq<u8>,
    text: Seq<u8>,
    functions: Seq<FunctionSymbol>,
) -> Header {
    Header {
        magic: HEADER_MAGIC,
        version: HEADER_VERSION,
        flags: HEADER_FLAGS,
        data_len: padded(data).len() as u32,
        rodata_len: padded(rodata).len() as u32,
        text_len: text.len() as u32,
        functions_len: functions.len() as u32,
    }
}

/// The image of the given regions.
pub open spec fn image_of(
    data: Seq<u8>,
    rodata: Seq<u8>,
    text: Seq<u8>,
    functions: Seq<FunctionSymbol>,
    calls: Seq<RelocatedCall>,
) -> Seq<u8> {
    header_bytes(header_of(data, rodata, text, functions)) + padded(data) + padded(rodata) + text
        + function_table(functions, functions.len()) + call_table(calls, calls.len())
}

/// The image is one that a loader can take apart: it starts with a header,
/// the three regions that the header measures are whole numbers of
/// instructions, and what follows the function table is a whole number of
/// call records.
pub open spec fn well_formed_image(image: Seq<u8>) -> bool {
    let header = header_at(image);
    let fixed = HEADER_SIZE + header.data_len + header.rodata_len + header.text_len
        + header.functions_len * FUNCTION_RECORD_SIZE;
    &&& image.len() >= HEADER_SIZE
    &&& header.magic == HEADER_MAGIC
    &&& header.version == HEADER_VERSION
    &&& header.flags == HEADER_FLAGS
    &&& header.data_len % INSTRUCTION_SIZE as u32 == 0
    &&& header.rodata_len % INSTRUCTION_SIZE as u32 == 0
    &&& header.text_len % INSTRUCTION_SIZE as u32 == 0
    &&& fixed <= image.len()
    &&& (image.len() - fixed) % CALL_RECORD_SIZE as int == 0
}

/// A padded region is a whole number of instructions long and starts with
/// the region.
pub proof fn lemma_padded(region: Seq<u8>)
    ensures
        padded(region).len() % INSTRUCTION_SIZE as nat == 0,
        region.len() <= padded(region).len() < region.len() + INSTRUCTION_SIZE,
        padded(region).subrange(0, region.len() as int) == region,
        region.len() % INSTRUCTION_SIZE as nat == 0 ==> padded(region) == region,
{
    assert(padded(region).subrange(0, region.len() as int) =~= region);
    if region.len() % INSTRUCTION_SIZE as nat == 0 {
        assert(padded(region) =~= region);
    }
}

/// A function table holds six bytes for each function.
pub proof fn lemma_function_table_len(functions: Seq<FunctionSymbol>, n: nat)
    ensures
        function_table(functions, n).len() == n * FUNCTION_RECORD_SIZE,
    decreases n,
{
    if n > 0 {
        lemma_function_table_len(functions, (n - 1) as nat);
        lemma_u16_le_len(functions[n - 1].name_offset);
        lemma_u16_le_len(functions[n - 1].flags);
        lemma_u16_le_len(functions[n - 1].location_offset);
    }
}

/// A call table holds eight bytes for each call.
pub proof fn lemma_call_table_len(calls: Seq<RelocatedCall>, n: nat)
    ensures
        call_table(calls, n).len() == n * CALL_RECORD_SIZE,
    decreases n,
{
    if n > 0 {
        lemma_call_table_len(calls, (n - 1) as nat);
        lemma_u32_le_len(calls[n - 1].instruction_offset);
        lemma_u32_le_len(calls[n - 1].function_text_offset);
    }
}

/// The header that stands at the start of its own bytes, whatever follows
/// them, is the header.
pub proof fn lemma_header_reads_back(header: Header, rest: Seq<u8>)
    ensures
        header_bytes(header).len() == HEADER_SIZE,
        header_at(header_bytes(header) + rest) == header,
{
    lemma_u32_le_round_trip(header.magic);
    lemma_u32_le_round_trip(header.version);
    lemma_u32_le_round_trip(header.flags);
    lemma_u32_le_round_trip(header.data_len);
    lemma_u32_le_round_trip(header.rodata_len);
    lemma_u32_le_round_trip(header.text_len);
    lemma_u32_le_round_trip(header.functions_len);
    let image = header_bytes(header) + rest;
    assert(image.subrange(0, 4) =~= u32_le(header.magic));
    assert(image.subrange(4, 8) =~= u32_le(header.version));
    assert(image.subrange(8, 12) =~= u32_le(header.flags));
    assert(image.subrange(12, 16) =~= u32_le(header.data_len));
    assert(image.subrange(16, 20) =~= u32_le(header.rodata_len));
    assert(image.subrange(20, 24) =~= u32_le(header.text_len));
    assert(image.subrange(24, 28) =~= u32_le(header.functions_len));
    lemma_u32_at_subrange(image, 0);
    lemma_u32_at_subrange(image, 4);
    lemma_u32_at_subrange(image, 8);
    lemma_u32_at_subrange(image, 12);
    lemma_u32_at_subrange(image, 16);
    lemma_u32_at_subrange(image, 20);
    lemma_u32_at_subrange(image, 24);
}

/// The header of an image agrees with what follows it: the lengths in the
/// header, six bytes for each function record, eight for each call record
/// and the header itself add up to the length of the image; the header
/// counts the function records; the data and the read-only data are padded
/// to whole instructions; and each region stands where the lengths before it
/// put it.
pub proof fn lemma_image_is_consistent(
    data: Seq<u8>,
    rodata: Seq<u8>,
    text: Seq<u8>,
    functions: Seq<FunctionSymbol>,
    calls: Seq<RelocatedCall>,
)
    requires
        assembly_failure(data, rodata, text, functions) is None,
    ensures
        ({
            let image = image_of(data, rodata, text, functions, calls);
            let header = header_at(image);
            let data_at = HEADER_SIZE as int;
            let rodata_at = data_at + header.data_len;
            let text_at = rodata_at + header.rodata_len;
            let functions_at = text_at + header.text_len;
            let calls_at = functions_at + header.functions_len * FUNCTION_RECORD_SIZE;
            &&& header == header_of(data, rodata, text, functions)
            &&& header.functions_len == functions.len()
            &&& header.text_len == text.len()
            &&& image.len() == header.data_len + header.rodata_len + header.text_len
                + header.functions_len * FUNCTION_RECORD_SIZE + calls.len() * CALL_RECORD_SIZE
                + HEADER_SIZE
            &&& header.data_len % INSTRUCTION_SIZE as u32 == 0
            &&& header.rodata_len % INSTRUCTION_SIZE as u32 == 0
            &&& header.text_len % INSTRUCTION_SIZE as u32 == 0
            &&& image.subrange(data_at, rodata_at) == padded(data)
            &&& image.subrange(rodata_at, text_at) == padded(rodata)
            &&& image.subrange(text_at, functions_at) == text
            &&& image.subrange(functions_at, calls_at) == function_table(
                functions,
                functions.len(),
            )
            &&& image.subrange(calls_at, image.len() as int) == call_table(calls, calls.len())
            &&& well_formed_image(image)
        }),
{
    let header = header_of(data, rodata, text, functions);
    let rest = padded(data) + padded(rodata) + text + function_table(functions, functions.len())
        + call_table(calls, calls.len());
    let image = image_of(data, rodata, text, functions, calls);
    assert(image =~= header_bytes(header) + rest);
    lemma_header_reads_back(header, rest);
    lemma_padded(data);
    lemma_padded(rodata);
    lemma_function_table_len(functions, functions.len());
    lemma_call_table_len(calls, calls.len());
    let data_at = HEADER_SIZE as int;
    let rodata_at = data_at + padded(data).len();
    let text_at = rodata_at + padded(rodata).len();
    let functions_at = text_at + text.len();
    let calls_at = functions_at + functions.len() * FUNCTION_RECORD_SIZE;
    assert(image.subrange(data_at, rodata_at) =~= padded(data));
    assert(image.subrange(rodata_at, text_at) =~= padded(rodata));
    assert(image.subrange(text_at, functions_at) =~= text);
    assert(image.subrange(functions_at, calls_at) =~= function_table(functions, functions.len()));
    assert(image.subrange(calls_at, image.len() as int) =~= call_table(calls, calls.len()));
}

/// Fills `region` up with zero bytes to a multiple of the instruction size.
pub fn pad_region(region: &mut Vec<u8>)
    ensures
        final(region)@ == padded(old(region)@),
        final(region)@.len() % INSTRUCTION_SIZE as nat == 0,
{
    let missing: usize = (INSTRUCTION_SIZE - region.len() % INSTRUCTION_SIZE) % INSTRUCTION_SIZE;
    let mut i: usize = 0;
    while i < missing
        invariant
            i <= missing,
            missing == padding(old(region)@.len()),
            region@ == old(region)@ + zeros(i as nat),
        decreases missing - i,
    {
        region.push(0);
        assert(region@ == old(region)@ + zeros((i + 1) as nat));
        i += 1;
    }
}

/// Appends the bytes of `header` to `image`.
pub fn append_header(image: &mut Vec<u8>, header: &Header)
    ensures
        final(image)@ == old(image)@ + header_bytes(*header),
{
    append_u32_le(image, header.magic);
    append_u32_le(image, header.version);
    append_u32_le(image, header.flags);
    append_u32_le(image, header.data_len);
    append_u32_le(image, header.rodata_len);
    append_u32_le(image, header.text_len);
    append_u32_le(image, header.functions_len);
    assert(image@ =~= old(image)@ + header_bytes(*header));
}

/// Appends the records of `functions` to `image`, in order.
pub fn append_function_table(image: &mut Vec<u8>, functions: &[FunctionSymbol])
    ensures
        final(image)@ == old(image)@ + function_table(functions@, functions@.len()),
{
    let mut i: usize = 0;
    while i < functions.len()
        invariant
            i <= functions.len(),
            image@ == old(image)@ + function_table(functions@, i as nat),
        decreases functions.len() - i,
    {
        let function = functions[i];
        append_u16_le(image, function.name_offset);
        append_u16_le(image, function.flags);
        append_u16_le(image, function.location_offset);
        assert(image@ == old(image)@ + function_table(functions@, (i + 1) as nat));
        i += 1;
    }
}

/// Appends the records of `calls` to `image`, in order.
pub fn append_call_table(image: &mut Vec<u8>, calls: &[RelocatedCall])
    ensures
        final(image)@ == old(image)@ + call_table(calls@, calls@.len()),
{
    let mut i: usize = 0;
    while i < calls.len()
        invariant
            i <= calls.len(),
            image@ == old(image)@ + call_table(calls@, i as nat),
        decreases calls.len() - i,
    {
        let call = calls[i];
        append_u32_le(image, call.instruction_offset);
        append_u32_le(image, call.function_text_offset);
        assert(image@ == old(image)@ + call_table(calls@, (i + 1) as nat));
        i += 1;
    }
}

/// Lays the regions of a program out as one image: the header, the data and
/// the read-only data, each filled up with zero bytes to a multiple of 8, the
/// text as it is, the function records and the call records.
///
/// Fails with [`Error::UnalignedText`] where the text is not a multiple of 8
/// bytes long, and with [`Error::Overflow`] where a length does not fit its
/// header field.
pub fn assemble(
    data: Vec<u8>,
    rodata: Vec<u8>,
    text: &[u8],
    functions: &[FunctionSymbol],
    calls: &[RelocatedCall],
) -> (r: Result<Vec<u8>, Error>)
    ensures
        match assembly_failure(data@, rodata@, text@, functions@) {
            Some(e) => r == Err::<Vec<u8>, Error>(e),
            None => r matches Ok(image) && image@ == image_of(
                data@,
                rodata@,
                text@,
                functions@,
                calls@,
            ),
        },
        r matches Ok(image) ==> well_formed_image(image@),
{
    proof {
        if assembly_failure(data@, rodata@, text@, functions@) is None {
            lemma_image_is_consistent(data@, rodata@, text@, functions@, calls@);
        }
    }
    let mut data = data;
    let mut rodata = rodata;
    if text.len() % INSTRUCTION_SIZE != 0 {
        return Err(Error::UnalignedText);
    }
    pad_region(&mut data);
    pad_region(&mut rodata);
    let limit: u64 = u32::MAX as u64;
    if data.len() as u64 > limit || rodata.len() as u64 > limit || text.len() as u64 > limit {
        return Err(Error::Overflow(Field::RegionLength));
    }
    if functions.len() as u64 > limit {
        return Err(Error::Overflow(Field::FunctionCount));
    }
    let header = Header {
        magic: HEADER_MAGIC,
        version: HEADER_VERSION,
        flags: HEADER_FLAGS,
        data_len: data.len() as u32,
        rodata_len: rodata.len() as u32,
        text_len: text.len() as u32,
        functions_len: functions.len() as u32,
    };
    let mut image: Vec<u8> = Vec::new();
    append_header(&mut image, &header);
    append_range(&mut image, data.as_slice(), 0, data.len());
    append_range(&mut image, rodata.as_slice(), 0, rodata.len());
    append_range(&mut image, text, 0, text.len());
    append_function_table(&mut image, functions);
    append_call_table(&mut image, calls);
    proof {
        assert(data@.subrange(0, data@.len() as int) == data@);
        assert(rodata@.subrange(0, rodata@.len() as int) == rodata@);
        assert(text@.subrange(0, text@.len() as int) == text@);
    }
    Ok(image)
}

/// The header at the start of `image`, where `image` is long enough to hold
/// one.
pub fn read_header(image: &[u8]) -> (r: Option<Header>)
    ensures
        match r {
            Some(header) => image@.len() >= HEADER_SIZE && header == header_at(image@),
            None => image@.len() < HEADER_SIZE,
        },
{
    if image.len() < HEADER_SIZE {
        return None;
    }
    Some(
        Header {
            magic: read_u32_le(image, 0),
            version: read_u32_le(image, 4),
            flags: read_u32_le(image, 8),
            data_len: read_u32_le(image, 12),
            rodata_len: read_u32_le(image, 16),
            text_len: read_u32_le(image, 20),
            functions_len: read_u32_le(image, 24),
        },
    )
}

} // verus!
