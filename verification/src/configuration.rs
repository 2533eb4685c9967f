//! How an instance of the VM is configured, and the 12-bit encoding of a
//! configuration that fits into one message of the device's message passing.
//!
//! ```text
//! bit  0      the VM implementation
//! bits 1-4    the SUIT storage slot that holds the program
//! bits 5-6    the layout of the program binary
//! bits 7-8    when calls of helper functions are verified
//! bit  9      where the list of allowed helpers comes from
//! bit  10     whether the program runs as jit-compiled code
//! bit  11     whether the program is jit-compiled before it runs
//! ```

use vstd::prelude::*;
use vstd::string::*;
use crate::text::str_equal;

verus! {

/// The implementation of the VM that runs the program.
#[derive(Debug, Clone, Copy, PartialEq, Eq, Structural)]
pub enum TargetVM {
    /// The rBPF VM.
    Rbpf,
    /// The Femto-Containers VM.
    FemtoContainer,
}

/// The layout of the program binary that the VM loads.
#[derive(Debug, Clone, Copy, PartialEq, Eq, Structural)]
pub enum BinaryFileLayout {
    /// Only the `.text` section of the object file. Nothing that the
    /// program refers to outside its text can be resolved.
    OnlyTextSection,
    /// A header with the lengths of the regions, then the data, the
    /// read-only data and the text.
    FemtoContainersHeader,
    /// The layout with a header, extended by the metadata for the
    /// relocation of function calls: the table of functions and the table
    /// of calls behind the text.
    ExtendedHeader,
    /// The object file itself, relocated on the device.
    RawObjectFile,
}

/// How the VM that runs a program is started.
#[derive(Debug, Clone, Copy, PartialEq, Eq, Structural)]
pub enum ExecutionModel {
    /// The program runs in the thread that handles the request and its
    /// result is sent back in the response.
    ShortLived,
    /// As `ShortLived`, and the program can write the response itself.
    WithAccessToCoapPacket,
    /// The program runs in a thread of its own for as long as it needs.
    LongRunning,
}

/// When the calls of helper functions in a program are verified.
#[derive(Debug, Clone, Copy, PartialEq, Eq, Structural)]
pub enum HelperAccessVerification {
    /// After compilation, before the program is signed and sent.
    AheadOfTime,
    /// When the program is loaded into the storage of the device.
    LoadTime,
    /// Immediately before the VM starts to execute the program.
    PreFlight,
    /// At each call, while the program runs.
    Runtime,
}

/// Where the list of allowed helper functions comes from.
#[derive(Debug, Clone, Copy, PartialEq, Eq, Structural)]
pub enum HelperAccessListSource {
    /// The request to execute the program carries the list.
    ExecuteRequest,
    /// The program binary carries the list.
    BinaryMetadata,
}

/// The number that stands for a VM implementation.
pub open spec fn target_index(target: TargetVM) -> u8 {
    match target {
        TargetVM::Rbpf => 0,
        TargetVM::FemtoContainer => 1,
    }
}

/// The number that stands for a layout.
pub open spec fn layout_index(layout: BinaryFileLayout) -> u8 {
    match layout {
        BinaryFileLayout::OnlyTextSection => 0,
        BinaryFileLayout::FemtoContainersHeader => 1,
        BinaryFileLayout::ExtendedHeader => 2,
        BinaryFileLayout::RawObjectFile => 3,
    }
}

/// The number that stands for a time of verification.
pub open spec fn verification_index(verification: HelperAccessVerification) -> u8 {
    match verification {
        HelperAccessVerification::AheadOfTime => 0,
        HelperAccessVerification::LoadTime => 1,
        HelperAccessVerification::PreFlight => 2,
        HelperAccessVerification::Runtime => 3,
    }
}

/// The number that stands for a source of the helper list.
pub open spec fn source_index(source: HelperAccessListSource) -> u8 {
    match source {
        HelperAccessListSource::ExecuteRequest => 0,
        HelperAccessListSource::BinaryMetadata => 1,
    }
}

impl TargetVM {
    /// The number that stands for the implementation.
    pub fn index(&self) -> (r: u8)
        ensures
            r == target_index(*self),
    {
        match self {
            TargetVM::Rbpf => 0,
            TargetVM::FemtoContainer => 1,
        }
    }

    /// The implementation that `v` stands for.
    pub fn from_u8(v: u8) -> (r: TargetVM)
        requires
            v <= 1,
        ensures
            target_index(r) == v,
    {
        if v == 0 {
            TargetVM::Rbpf
        } else {
            TargetVM::FemtoContainer
        }
    }
}

impl BinaryFileLayout {
    /// The number that stands for the layout.
    pub fn index(&self) -> (r: u8)
        ensures
            r == layout_index(*self),
    {
        match self {
            BinaryFileLayout::OnlyTextSection => 0,
            BinaryFileLayout::FemtoContainersHeader => 1,
            BinaryFileLayout::ExtendedHeader => 2,
            BinaryFileLayout::RawObjectFile => 3,
        }
    }

    /// The layout that `v` stands for.
    pub fn from_u8(v: u8) -> (r: BinaryFileLayout)
        requires
            v <= 3,
        ensures
            layout_index(r) == v,
    {
        if v == 0 {
            BinaryFileLayout::OnlyTextSection
        } else if v == 1 {
            BinaryFileLayout::FemtoContainersHeader
        } else if v == 2 {
            BinaryFileLayout::ExtendedHeader
        } else {
            BinaryFileLayout::RawObjectFile
        }
    }
}

impl HelperAccessVerification {
    /// The number that stands for the time of verification.
    pub fn index(&self) -> (r: u8)
        ensures
            r == verification_index(*self),
    {
        match self {
            HelperAccessVerification::AheadOfTime => 0,
            HelperAccessVerification::LoadTime => 1,
            HelperAccessVerification::PreFlight => 2,
            HelperAccessVerification::Runtime => 3,
        }
    }

    /// The time of verification that `v` stands for.
    pub fn from_u8(v: u8) -> (r: HelperAccessVerification)
        requires
            v <= 3,
        ensures
            verification_index(r) == v,
    {
        if v == 0 {
            HelperAccessVerification::AheadOfTime
        } else if v == 1 {
            HelperAccessVerification::LoadTime
        } else if v == 2 {
            HelperAccessVerification::PreFlight
        } else {
            HelperAccessVerification::Runtime
        }
    }
}

impl HelperAccessListSource {
    /// The number that stands for the source.
    pub fn index(&self) -> (r: u8)
        ensures
            r == source_index(*self),
    {
        match self {
            HelperAccessListSource::ExecuteRequest => 0,
            HelperAccessListSource::BinaryMetadata => 1,
        }
    }

    /// The source that `v` stands for.
    pub fn from_u8(v: u8) -> (r: HelperAccessListSource)
        requires
            v <= 1,
        ensures
            source_index(r) == v,
    {
        if v == 0 {
            HelperAccessListSource::ExecuteRequest
        } else {
            HelperAccessListSource::BinaryMetadata
        }
    }
}

/// The value that the name of a VM implementation stands for, if it is one.
pub open spec fn target_named(name: Seq<char>) -> Option<TargetVM> {
    if name == "rBPF"@ {
        Some(TargetVM::Rbpf)
    } else if name == "FemtoContainer"@ {
        Some(TargetVM::FemtoContainer)
    } else {
        None
    }
}

/// What is said of a name that is not the name of a VM implementation.
pub open spec fn unknown_target_message(name: Seq<char>) -> Seq<char> {
    "Unknown target VM: "@ + name
}

impl TargetVM {
    /// The value that `s` is the name of; a text that is no name is
    /// refused with a message that quotes it.
    pub fn from_str(s: &str) -> (r: Result<TargetVM, String>)
        ensures
            match target_named(s@) {
                Some(value) => r matches Ok(v) && v == value,
                None => r matches Err(e) && e@ == unknown_target_message(s@),
            },
    {
        if str_equal(s, "rBPF") {
            Ok(TargetVM::Rbpf)
        } else if str_equal(s, "FemtoContainer") {
            Ok(TargetVM::FemtoContainer)
        } else {
            Err("Unknown target VM: ".to_owned().concat(s))
        }
    }
}

/// The value that the name of a layout stands for, if it is one.
pub open spec fn layout_named(name: Seq<char>) -> Option<BinaryFileLayout> {
    if name == "OnlyTextSection"@ {
        Some(BinaryFileLayout::OnlyTextSection)
    } else if name == "FemtoContainersHeader"@ {
        Some(BinaryFileLayout::FemtoContainersHeader)
    } else if name == "ExtendedHeader"@ {
        Some(BinaryFileLayout::ExtendedHeader)
    } else if name == "RawObjectFile"@ {
        Some(BinaryFileLayout::RawObjectFile)
    } else {
        None
    }
}

/// What is said of a name that is not the name of a layout.
pub open spec fn unknown_layout_message(name: Seq<char>) -> Seq<char> {
    "Unknown binary file layout: "@ + name
}

impl BinaryFileLayout {
    /// The value that `s` is the name of; a text that is no name is
    /// refused with a message that quotes it.
    pub fn from_str(s: &str) -> (r: Result<BinaryFileLayout, String>)
        ensures
            match layout_named(s@) {
                Some(value) => r matches Ok(v) && v == value,
                None => r matches Err(e) && e@ == unknown_layout_message(s@),
            },
    {
        if str_equal(s, "OnlyTextSection") {
            Ok(BinaryFileLayout::OnlyTextSection)
        } else if str_equal(s, "FemtoContainersHeader") {
            Ok(BinaryFileLayout::FemtoContainersHeader)
        } else if str_equal(s, "ExtendedHeader") {
            Ok(BinaryFileLayout::ExtendedHeader)
        } else if str_equal(s, "RawObjectFile") {
            Ok(BinaryFileLayout::RawObjectFile)
        } else {
            Err("Unknown binary file layout: ".to_owned().concat(s))
        }
    }
}

/// The value that the name of an execution model stands for, if it is one.
pub open spec fn model_named(name: Seq<char>) -> Option<ExecutionModel> {
    if name == "ShortLived"@ {
        Some(ExecutionModel::ShortLived)
    } else if name == "WithAccessToCoapPacket"@ {
        Some(ExecutionModel::WithAccessToCoapPacket)
    } else if name == "LongRunning"@ {
        Some(ExecutionModel::LongRunning)
    } else {
        None
    }
}

/// What is said of a name that is not the name of an execution model.
pub open spec fn unknown_model_message(name: Seq<char>) -> Seq<char> {
    "Unknown execution model: "@ + name
}

impl ExecutionModel {
    /// The value that `s` is the name of; a text that is no name is
    /// refused with a message that quotes it.
    pub fn from_str(s: &str) -> (r: Result<ExecutionModel, String>)
        ensures
            match model_named(s@) {
                Some(value) => r matches Ok(v) && v == value,
                None => r matches Err(e) && e@ == unknown_model_message(s@),
            },
    {
        if str_equal(s, "ShortLived") {
            Ok(ExecutionModel::ShortLived)
        } else if str_equal(s, "WithAccessToCoapPacket") {
            Ok(ExecutionModel::WithAccessToCoapPacket)
        } else if str_equal(s, "LongRunning") {
            Ok(ExecutionModel::LongRunning)
        } else {
            Err("Unknown execution model: ".to_owned().concat(s))
        }
    }
}

/// The value that the name of a time of verification stands for, if it is one.
pub open spec fn verification_named(name: Seq<char>) -> Option<HelperAccessVerification> {
    if name == "AheadOfTime"@ {
        Some(HelperAccessVerification::AheadOfTime)
    } else if name == "LoadTime"@ {
        Some(HelperAccessVerification::LoadTime)
    } else if name == "PreFlight"@ {
        Some(HelperAccessVerification::PreFlight)
    } else if name == "Runtime"@ {
        Some(HelperAccessVerification::Runtime)
    } else {
        None
    }
}

/// What is said of a name that is not the name of a time of verification.
pub open spec fn unknown_verification_message(name: Seq<char>) -> Seq<char> {
    "Unknown helper access verification type: "@ + name
}

impl HelperAccessVerification {
    /// The value that `s` is the name of; a text that is no name is
    /// refused with a message that quotes it.
    pub fn from_str(s: &str) -> (r: Result<HelperAccessVerification, String>)
        ensures
            match verification_named(s@) {
                Some(value) => r matches Ok(v) && v == value,
                None => r matches Err(e) && e@ == unknown_verification_message(s@),
            },
    {
        if str_equal(s, "AheadOfTime") {
            Ok(HelperAccessVerification::AheadOfTime)
        } else if str_equal(s, "LoadTime") {
            Ok(HelperAccessVerification::LoadTime)
        } else if str_equal(s, "PreFlight") {
            Ok(HelperAccessVerification::PreFlight)
        } else if str_equal(s, "Runtime") {
            Ok(HelperAccessVerification::Runtime)
        } else {
            Err("Unknown helper access verification type: ".to_owned().concat(s))
        }
    }
}

/// The value that the name of a source of the helper list stands for, if it is one.
pub open spec fn source_named(name: Seq<char>) -> Option<HelperAccessListSource> {
    if name == "ExecuteRequest"@ {
        Some(HelperAccessListSource::ExecuteRequest)
    } else if name == "BinaryMetadata"@ {
        Some(HelperAccessListSource::BinaryMetadata)
    } else {
        None
    }
}

/// What is said of a name that is not the name of a source of the helper list.
pub open spec fn unknown_source_message(name: Seq<char>) -> Seq<char> {
    "Unknown helper access list source: "@ + name
}

impl HelperAccessListSource {
    /// The value that `s` is the name of; a text that is no name is
    /// refused with a message that quotes it.
    pub fn from_str(s: &str) -> (r: Result<HelperAccessListSource, String>)
        ensures
            match source_named(s@) {
                Some(value) => r matches Ok(v) && v == value,
                None => r matches Err(e) && e@ == unknown_source_message(s@),
            },
    {
        if str_equal(s, "ExecuteRequest") {
            Ok(HelperAccessListSource::ExecuteRequest)
        } else if str_equal(s, "BinaryMetadata") {
            Ok(HelperAccessListSource::BinaryMetadata)
        } else {
            Err("Unknown helper access list source: ".to_owned().concat(s))
        }
    }
}

/// The name under which a VM implementation is printed.
pub open spec fn target_display_name(target: TargetVM) -> Seq<char> {
    match target {
        TargetVM::Rbpf => "Rbpf"@,
        TargetVM::FemtoContainer => "FemtoContainer"@,
    }
}

impl TargetVM {
    /// The name under which the implementation is printed.
    pub fn name(&self) -> (r: &'static str)
        ensures
            r@ == target_display_name(*self),
    {
        match self {
            TargetVM::Rbpf => "Rbpf",
            TargetVM::FemtoContainer => "FemtoContainer",
        }
    }
}

/// The configuration of one instance of the VM.
#[derive(Debug, Clone, Copy, PartialEq, Eq, Structural)]
pub struct VMConfiguration {
    /// The implementation of the VM.
    pub vm_target: TargetVM,
    /// The SUIT storage slot from which the program is loaded.
    pub suit_slot: usize,
    /// The layout of the program binary.
    pub binary_layout: BinaryFileLayout,
    /// When the calls of helper functions are verified.
    pub helper_access_verification: HelperAccessVerification,
    /// Where the list of allowed helpers comes from.
    pub helper_access_list_source: HelperAccessListSource,
    /// Whether the program runs as jit-compiled code.
    pub jit: bool,
    /// Whether the program is jit-compiled before it runs, or taken from
    /// the storage of compiled programs.
    pub jit_compile: bool,
}

/// The numbers of the seven fields, laid out in twelve bits.
pub open spec fn pack(
    target: u16,
    slot: u16,
    layout: u16,
    verification: u16,
    source: u16,
    jit: u16,
    jit_compile: u16,
) -> u16 {
    (target & 0b1) | ((slot & 0b1111) << 1) | ((layout & 0b11) << 5) | ((verification & 0b11) << 7)
        | ((source & 0b1) << 9) | ((jit & 0b1) << 10) | ((jit_compile & 0b1) << 11)
}

/// The number that stands for a flag.
pub open spec fn flag(b: bool) -> u16 {
    if b {
        1
    } else {
        0
    }
}

/// The encoding of a configuration. Of the storage slot only the low four
/// bits are kept.
pub open spec fn encoding_of(configuration: VMConfiguration) -> u16 {
    pack(
        target_index(configuration.vm_target) as u16,
        (configuration.suit_slot % 16) as u16,
        layout_index(configuration.binary_layout) as u16,
        verification_index(configuration.helper_access_verification) as u16,
        source_index(configuration.helper_access_list_source) as u16,
        flag(configuration.jit),
        flag(configuration.jit_compile),
    )
}

/// `configuration` is what the low twelve bits of `encoding` stand for.
pub open spec fn decodes_to(encoding: u16, configuration: VMConfiguration) -> bool {
    &&& target_index(configuration.vm_target) == encoding & 0b1
    &&& configuration.suit_slot == (encoding >> 1) & 0b1111
    &&& layout_index(configuration.binary_layout) == (encoding >> 5) & 0b11
    &&& verification_index(configuration.helper_access_verification) == (encoding >> 7) & 0b11
    &&& source_index(configuration.helper_access_list_source) == (encoding >> 9) & 0b1
    &&& configuration.jit == ((encoding >> 10) & 0b1 == 1)
    &&& configuration.jit_compile == ((encoding >> 11) & 0b1 == 1)
}

/// Each field can be read back from the bits that hold it.
pub proof fn lemma_pack_fields(
    target: u16,
    slot: u16,
    layout: u16,
    verification: u16,
    source: u16,
    jit: u16,
    jit_compile: u16,
)
    by (bit_vector)
    requires
        target <= 1,
        slot <= 15,
        layout <= 3,
        verification <= 3,
        source <= 1,
        jit <= 1,
        jit_compile <= 1,
    ensures
        pack(target, slot, layout, verification, source, jit, jit_compile) & 0b1 == target,
        (pack(target, slot, layout, verification, source, jit, jit_compile) >> 1) & 0b1111 == slot,
        (pack(target, slot, layout, verification, source, jit, jit_compile) >> 5) & 0b11 == layout,
        (pack(target, slot, layout, verification, source, jit, jit_compile) >> 7) & 0b11
            == verification,
        (pack(target, slot, layout, verification, source, jit, jit_compile) >> 9) & 0b1 == source,
        (pack(target, slot, layout, verification, source, jit, jit_compile) >> 10) & 0b1 == jit,
        (pack(target, slot, layout, verification, source, jit, jit_compile) >> 11) & 0b1
            == jit_compile,
        pack(target, slot, layout, verification, source, jit, jit_compile) < 4096,
{
}

/// Two configurations that the same encoding stands for are equal.
pub proof fn lemma_decoding_is_unique(encoding: u16, a: VMConfiguration, b: VMConfiguration)
    requires
        decodes_to(encoding, a),
        decodes_to(encoding, b),
    ensures
        a == b,
{
}

/// Decoding is the inverse of encoding: the encoding of a configuration
/// whose storage slot is one of the sixteen that the encoding has room for
/// stands for that configuration, and for no other.
pub proof fn lemma_decode_inverts_encode(configuration: VMConfiguration)
    requires
        configuration.suit_slot < 16,
    ensures
        decodes_to(encoding_of(configuration), configuration),
        encoding_of(configuration) < 4096,
{
    lemma_pack_fields(
        target_index(configuration.vm_target) as u16,
        (configuration.suit_slot % 16) as u16,
        layout_index(configuration.binary_layout) as u16,
        verification_index(configuration.helper_access_verification) as u16,
        source_index(configuration.helper_access_list_source) as u16,
        flag(configuration.jit),
        flag(configuration.jit_compile),
    );
}

/// The bits of a field, taken from an encoding and put back in their place,
/// are the low twelve bits of the encoding.
pub proof fn lemma_pack_inverts_unpack(encoding: u16)
    by (bit_vector)
    ensures
        pack(
            encoding & 0b1,
            (encoding >> 1) & 0b1111,
            (encoding >> 5) & 0b11,
            (encoding >> 7) & 0b11,
            (encoding >> 9) & 0b1,
            (encoding >> 10) & 0b1,
            (encoding >> 11) & 0b1,
        ) == encoding & 0xfff,
        (encoding >> 1) & 0b1111 < 16,
{
}

/// Encoding is the inverse of decoding on the twelve bits that carry a
/// configuration: the configuration that an encoding stands for encodes to
/// the low twelve bits of that encoding.
pub proof fn lemma_encode_inverts_decode(encoding: u16, configuration: VMConfiguration)
    requires
        decodes_to(encoding, configuration),
    ensures
        encoding_of(configuration) == encoding & 0xfff,
{
    lemma_pack_inverts_unpack(encoding);
    let jit = (encoding >> 10) & 0b1;
    let jit_compile = (encoding >> 11) & 0b1;
    assert(jit == 0 || jit == 1) by (bit_vector)
        requires
            jit == (encoding >> 10) & 0b1,
    ;
    assert(jit_compile == 0 || jit_compile == 1) by (bit_vector)
        requires
            jit_compile == (encoding >> 11) & 0b1,
    ;
}

impl VMConfiguration {
    /// The configuration with the given fields.
    pub fn new(
        vm_target: TargetVM,
        suit_slot: usize,
        binary_layout: BinaryFileLayout,
        helper_access_verification: HelperAccessVerification,
        helper_access_list_source: HelperAccessListSource,
        jit: bool,
        jit_compile: bool,
    ) -> (r: Self)
        ensures
            r == (VMConfiguration {
                vm_target,
                suit_slot,
                binary_layout,
                helper_access_verification,
                helper_access_list_source,
                jit,
                jit_compile,
            }),
    {
        VMConfiguration {
            vm_target,
            binary_layout,
            suit_slot,
            helper_access_verification,
            helper_access_list_source,
            jit,
            jit_compile,
        }
    }

    /// Encodes the configuration into twelve bits.
    pub fn encode(&self) -> (r: u16)
        ensures
            r == encoding_of(*self),
            self.suit_slot < 16 ==> decodes_to(r, *self),
    {
        let target: u16 = self.vm_target.index() as u16;
        let slot: u16 = (self.suit_slot % 16) as u16;
        let layout: u16 = self.binary_layout.index() as u16;
        let verification: u16 = self.helper_access_verification.index() as u16;
        let source: u16 = self.helper_access_list_source.index() as u16;
        let jit: u16 = if self.jit {
            1
        } else {
            0
        };
        let jit_compile: u16 = if self.jit_compile {
            1
        } else {
            0
        };
        proof {
            if self.suit_slot < 16 {
                lemma_decode_inverts_encode(*self);
            }
        }
        let mut encoding: u16 = 0;
        encoding |= target & 0b1;
        encoding |= (slot & 0b1111) << 1;
        encoding |= (layout & 0b11) << 5;
        encoding |= (verification & 0b11) << 7;
        encoding |= (source & 0b1) << 9;
        encoding |= (jit & 0b1) << 10;
        encoding |= (jit_compile & 0b1) << 11;
        assert(encoding == pack(target, slot, layout, verification, source, jit, jit_compile))
            by (bit_vector)
            requires
                encoding == 0u16 | (target & 0b1) | ((slot & 0b1111) << 1) | ((layout & 0b11) << 5)
                    | ((verification & 0b11) << 7) | ((source & 0b1) << 9) | ((jit & 0b1) << 10)
                    | ((jit_compile & 0b1) << 11),
        ;
        encoding
    }

    /// Decodes the low twelve bits of `encoding`; the other bits are not
    /// looked at.
    pub fn decode(encoding: u16) -> (r: Self)
        ensures
            decodes_to(encoding, r),
    {
        let target: u16 = encoding & 0b1;
        let slot: u16 = (encoding >> 1) & 0b1111;
        let layout: u16 = (encoding >> 5) & 0b11;
        let verification: u16 = (encoding >> 7) & 0b11;
        let source: u16 = (encoding >> 9) & 0b1;
        assert(target <= 1 && slot <= 15 && layout <= 3 && verification <= 3 && source <= 1)
            by (bit_vector)
            requires
                target == encoding & 0b1,
                slot == (encoding >> 1) & 0b1111,
                layout == (encoding >> 5) & 0b11,
                verification == (encoding >> 7) & 0b11,
                source == (encoding >> 9) & 0b1,
        ;
        VMConfiguration {
            vm_target: TargetVM::from_u8(target as u8),
            suit_slot: slot as usize,
            binary_layout: BinaryFileLayout::from_u8(layout as u8),
            helper_access_verification: HelperAccessVerification::from_u8(verification as u8),
            helper_access_list_source: HelperAccessListSource::from_u8(source as u8),
            jit: ((encoding >> 10) & 0b1) == 1,
            jit_compile: ((encoding >> 11) & 0b1) == 1,
        }
    }
}

} // verus!
