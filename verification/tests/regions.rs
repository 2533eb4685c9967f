use micro_bpf::assembler::{
    append_call_table, append_function_table, append_header, assemble, pad_region, read_header,
    Header,
};
use micro_bpf::bytes::{
    append_range, append_u16_le, append_u32_le, bytes_equal, contains, read_u32_le,
};
use micro_bpf::configuration::BinaryFileLayout;
use micro_bpf::device::{collect_patches, patch_program, relocate_object, Patch};
use micro_bpf::error::{Error, Field};
use micro_bpf::functions::{build_function_catalog, is_global_function_symbol, FunctionSymbol};
use micro_bpf::instruction::{
    is_lddw_at, read_lddw_immediate, write_call, write_lddw, write_u32_le, write_word,
};
use micro_bpf::literals::{absorb_string_literals, clone_bytes, pool_name, StringLiteralOffsets};
use micro_bpf::object::{
    Binding, ObjectFile, Relocation, RelocationSection, Section, Symbol, SymbolKind,
};
use micro_bpf::pipeline::{
    apply_layout, assemble_object, extract_text, extract_text_section, Assembled,
};
use micro_bpf::relocation::{
    patch_load_at, relocation_entries, resolve_relocations, RelocatedCall, Resolved,
};
use micro_bpf::sections::{extract_from_object, find_section, read_section};

fn section(name: &str, offset: u64, size: u64) -> Section {
    Section { name: Some(name.as_bytes().to_vec()), offset, size, info: 0 }
}

fn symbol(name: &str, kind: u8, binding: u8, value: u64, section: usize) -> Symbol {
    Symbol { name: Some(name.as_bytes().to_vec()), kind, binding, value, section }
}

fn relocations(entries: &[(u64, usize)]) -> Vec<RelocationSection> {
    vec![RelocationSection {
        section: 0,
        entries: entries.iter().map(|&(offset, symbol)| Relocation { offset, symbol }).collect(),
    }]
}

fn lddw(immediate: u32) -> Vec<u8> {
    let mut out = vec![0x18, 0x01, 0, 0];
    out.extend_from_slice(&immediate.to_le_bytes());
    out.extend_from_slice(&[0xaa; 8]);
    out
}

/// A buffer with a text of two wide loads at 0, data at 32 and a literal
/// pool at 48, and the sections that describe it.
fn sample() -> (ObjectFile, Vec<u8>) {
    let mut bytes = lddw(1);
    bytes.extend(lddw(2));
    bytes.extend_from_slice(&[1, 2, 3, 4, 5, 6, 7, 8, 9, 10, 11, 12, 13, 14, 15, 16]);
    bytes.extend_from_slice(b"hello\0");
    let object = ObjectFile {
        sections: vec![
            Section { name: Some(Vec::new()), offset: 0, size: 0, info: 0 },
            section(".text", 0, 32),
            section(".data", 32, 16),
            section(".rodata.str1.1", 48, 6),
        ],
        symbols: Vec::new(),
        relocations: Vec::new(),
    };
    (object, bytes)
}

#[test]
fn sections_are_found_by_name() {
    let (object, bytes) = sample();
    assert_eq!(find_section(&object, b".text"), Some(1));
    assert_eq!(find_section(&object, b".data"), Some(2));
    assert_eq!(find_section(&object, b""), Some(0));
    assert_eq!(find_section(&object, b".bss"), None);
    assert_eq!(find_section(&object, b".tex"), None);
    assert_eq!(extract_from_object(&object, &bytes, b".data").unwrap(), bytes[32..48].to_vec());
    assert_eq!(extract_from_object(&object, &bytes, b".bss"), Ok(Vec::new()));
    assert_eq!(read_section(&object.sections[3], &bytes), Ok(b"hello\0".to_vec()));
    let mut nameless = object;
    nameless.sections[1].name = None;
    assert_eq!(find_section(&nameless, b".text"), None);
}

#[test]
fn section_outside_the_file_is_refused() {
    let (mut object, bytes) = sample();
    object.sections[2].size = 100;
    assert_eq!(extract_from_object(&object, &bytes, b".data"), Err(Error::SectionOutOfBounds));
    assert_eq!(assemble_object(&object, &bytes), Err(Error::SectionOutOfBounds));
    object.sections[2] = section(".data", 54, 0);
    assert_eq!(extract_from_object(&object, &bytes, b".data"), Ok(Vec::new()));
    object.sections[2] = section(".data", 55, 0);
    assert_eq!(extract_from_object(&object, &bytes, b".data"), Err(Error::SectionOutOfBounds));
    object.sections[2] = section(".data", u64::MAX, 2);
    assert_eq!(extract_from_object(&object, &bytes, b".data"), Err(Error::SectionOutOfBounds));
    let (mut object, bytes) = sample();
    object.sections[1].size = 64;
    assert_eq!(assemble_object(&object, &bytes), Err(Error::SectionOutOfBounds));
    assert_eq!(extract_text(&object, &bytes), Err(Error::SectionOutOfBounds));
    let (mut object, bytes) = sample();
    object.sections[3].offset = 50;
    assert_eq!(assemble_object(&object, &bytes), Err(Error::SectionOutOfBounds));
}

#[test]
fn text_is_checked_before_it_is_used() {
    let (mut object, bytes) = sample();
    assert_eq!(extract_text(&object, &bytes), Ok(bytes[..32].to_vec()));
    object.sections[1].size = 31;
    assert_eq!(extract_text(&object, &bytes), Err(Error::UnalignedText));
    object.sections[1].name = Some(b"text".to_vec());
    assert_eq!(extract_text(&object, &bytes), Err(Error::MissingText));
    let big = vec![0u8; 65536];
    let object = ObjectFile {
        sections: vec![section(".text", 0, 65536)],
        symbols: Vec::new(),
        relocations: Vec::new(),
    };
    assert_eq!(extract_text(&object, &big), Err(Error::Overflow(Field::TextSize)));
}

#[test]
fn literal_pools_are_merged_in_table_order() {
    let bytes = b"onetwothreefour".to_vec();
    let object = ObjectFile {
        sections: vec![
            section(".rodata.str1.8", 3, 3),
            section(".text", 0, 0),
            section("x.rodata.str", 11, 4),
            section(".rodata.st", 0, 3),
            section(".rodata.str1.1", 0, 3),
            Section { name: None, offset: 0, size: 3, info: 0 },
        ],
        symbols: Vec::new(),
        relocations: Vec::new(),
    };
    let mut rodata = b"__".to_vec();
    let offsets = absorb_string_literals(&object, &bytes, &mut rodata).unwrap();
    assert_eq!(rodata, b"__twofourone".to_vec());
    assert_eq!(offsets.get(b".rodata.str1.8"), Some(2));
    assert_eq!(offsets.get(b"x.rodata.str"), Some(5));
    assert_eq!(offsets.get(b".rodata.str1.1"), Some(9));
    assert_eq!(offsets.get(b".rodata.st"), None);
    assert_eq!(offsets.get(b".text"), None);
    assert_eq!(pool_name(&object.sections[0]), Some(&b".rodata.str1.8".to_vec()));
    assert_eq!(pool_name(&object.sections[1]), None);
    assert_eq!(pool_name(&object.sections[3]), None);
    assert_eq!(pool_name(&object.sections[5]), None);
}

#[test]
fn literal_pool_that_cannot_be_merged_keeps_what_was_merged() {
    let bytes = b"onetwothree".to_vec();
    let mut object = ObjectFile {
        sections: vec![
            section(".rodata.str1.1", 0, 3),
            section(".rodata.str1.1", 3, 3),
            section(".rodata.str1.2", 6, 5),
        ],
        symbols: Vec::new(),
        relocations: Vec::new(),
    };
    let mut rodata = Vec::new();
    assert_eq!(
        absorb_string_literals(&object, &bytes, &mut rodata),
        Err(Error::DuplicateLiteralPool)
    );
    assert_eq!(rodata, b"one".to_vec());
    object.sections[1] = section(".rodata.str1.3", 9, 3);
    let mut rodata = Vec::new();
    assert_eq!(
        absorb_string_literals(&object, &bytes, &mut rodata),
        Err(Error::SectionOutOfBounds)
    );
    assert_eq!(rodata, b"one".to_vec());
}

#[test]
fn offsets_keep_the_last_entry_of_a_name() {
    let mut offsets = StringLiteralOffsets::new();
    assert_eq!(offsets.get(b"a"), None);
    offsets.insert(b"a".to_vec(), 1);
    offsets.insert(b"b".to_vec(), 2);
    assert_eq!(offsets.get(b"a"), Some(1));
    assert_eq!(offsets.get(b"b"), Some(2));
    offsets.insert(b"a".to_vec(), 3);
    assert_eq!(offsets.get(b"a"), Some(3));
    assert_eq!(offsets.get(b"b"), Some(2));
    assert_eq!(offsets.get(b""), None);
    assert_eq!(clone_bytes(&vec![1, 2, 3]), vec![1, 2, 3]);
}

#[test]
fn function_catalog_records_global_functions() {
    let object = ObjectFile {
        sections: Vec::new(),
        symbols: vec![
            symbol("", 0, 0, 0, 0),
            symbol("local", 2, 0, 8, 1),
            symbol("main", 2, 1, 0x40, 1),
            symbol("data", 1, 1, 4, 2),
            symbol("weak", 2, 2, 0x20, 1),
            symbol("", 2, 1, 0x10, 1),
            symbol("end", 2, 1, 0xffff, 1),
        ],
        relocations: Vec::new(),
    };
    let mut rodata = b"xyz".to_vec();
    let functions = build_function_catalog(&object, &mut rodata).unwrap();
    assert_eq!(rodata, b"xyzmainend".to_vec());
    assert_eq!(
        functions,
        vec![
            FunctionSymbol { name_offset: 3, flags: 0, location_offset: 0x40 },
            FunctionSymbol { name_offset: 7, flags: 0, location_offset: 0x10 },
            FunctionSymbol { name_offset: 7, flags: 0, location_offset: 0xffff },
        ]
    );
    assert!(is_global_function_symbol(&object.symbols[2]));
    assert!(!is_global_function_symbol(&object.symbols[1]));
    assert!(!is_global_function_symbol(&object.symbols[3]));
    assert!(!is_global_function_symbol(&object.symbols[4]));
    assert_eq!(object.symbols[2].kind(), SymbolKind::Function);
    assert_eq!(object.symbols[3].kind(), SymbolKind::Object);
    assert_eq!(symbol("", 3, 0, 0, 0).kind(), SymbolKind::Section);
    assert_eq!(symbol("", 4, 0, 0, 0).kind(), SymbolKind::Other);
    assert_eq!(object.symbols[2].binding(), Binding::Global);
    assert_eq!(object.symbols[1].binding(), Binding::Local);
    assert_eq!(object.symbols[4].binding(), Binding::Other);
}

#[test]
fn function_without_a_name_is_refused() {
    let object = ObjectFile {
        sections: Vec::new(),
        symbols: vec![
            symbol("first", 2, 1, 0, 1),
            Symbol { name: None, kind: 2, binding: 1, value: 0, section: 1 },
            symbol("last", 2, 1, 0, 1),
        ],
        relocations: Vec::new(),
    };
    let mut rodata = Vec::new();
    assert_eq!(build_function_catalog(&object, &mut rodata), Err(Error::UnnamedFunction));
    assert_eq!(rodata, b"first".to_vec());
    let local = ObjectFile {
        sections: Vec::new(),
        symbols: vec![Symbol { name: None, kind: 2, binding: 0, value: 0, section: 1 }],
        relocations: Vec::new(),
    };
    assert_eq!(build_function_catalog(&local, &mut rodata), Ok(Vec::new()));
}

#[test]
fn more_functions_than_sixteen_bits_count_are_refused() {
    let mut symbols = Vec::new();
    for _ in 0..65535 {
        symbols.push(symbol("", 2, 1, 0, 1));
    }
    let mut object = ObjectFile { sections: Vec::new(), symbols, relocations: Vec::new() };
    let mut rodata = Vec::new();
    assert_eq!(build_function_catalog(&object, &mut rodata).unwrap().len(), 65535);
    object.symbols.push(symbol("", 2, 1, 0, 1));
    assert_eq!(
        build_function_catalog(&object, &mut rodata),
        Err(Error::Overflow(Field::FunctionCount))
    );
}

#[test]
fn relocation_entries_follow_the_sections() {
    let object = ObjectFile {
        sections: Vec::new(),
        symbols: Vec::new(),
        relocations: vec![
            RelocationSection { section: 4, entries: vec![Relocation { offset: 8, symbol: 1 }] },
            RelocationSection { section: 5, entries: Vec::new() },
            RelocationSection {
                section: 6,
                entries: vec![
                    Relocation { offset: 0, symbol: 2 },
                    Relocation { offset: 8, symbol: 1 },
                ],
            },
        ],
    };
    assert_eq!(
        relocation_entries(&object),
        vec![
            Relocation { offset: 8, symbol: 1 },
            Relocation { offset: 0, symbol: 2 },
            Relocation { offset: 8, symbol: 1 },
        ]
    );
}

#[test]
fn loads_are_patched_by_the_kind_of_their_symbol() {
    let (mut object, _) = sample();
    object.sections.push(section(".rodata", 0, 0));
    object.symbols = vec![
        symbol("", 3, 0, 0, 3),
        symbol("", 3, 0, 0, 2),
        symbol("x", 1, 1, 12, 2),
        symbol("s", 1, 0, 4, 3),
        symbol("r", 1, 1, 5, 4),
        symbol("far", 1, 1, 6, 99),
    ];
    let mut offsets = StringLiteralOffsets::new();
    offsets.insert(b".rodata.str1.1".to_vec(), 24);
    offsets.insert(b".data".to_vec(), 8);

    let mut expect = |symbol: usize, opcode: u8, add: u32| {
        object.relocations = relocations(&[(16, symbol)]);
        let mut text = lddw(1);
        text.extend(lddw(2));
        let resolved = resolve_relocations(&object, &mut text, &offsets).unwrap();
        assert_eq!(resolved, Resolved { calls: Vec::new(), skipped: 0 });
        let mut patched = lddw(1);
        patched.extend(lddw(2 + add));
        patched[16] = opcode;
        assert_eq!(text, patched);
    };
    expect(0, 0xD8, 24);
    expect(1, 0xB8, 8);
    expect(2, 0xB8, 12);
    expect(3, 0xD8, 4);
    expect(4, 0xB8, 5);
    expect(5, 0xB8, 6);
}

#[test]
fn relocations_are_resolved_in_order() {
    let (mut object, _) = sample();
    object.symbols = vec![
        symbol("", 3, 0, 0, 3),
        symbol("f", 2, 1, 16, 1),
        symbol("x", 1, 1, 3, 2),
        symbol("file", 4, 0, 0, 0),
        symbol("", 3, 0, 0, 1),
    ];
    object.relocations = vec![
        RelocationSection {
            section: 0,
            entries: vec![
                Relocation { offset: 0, symbol: 2 },
                Relocation { offset: 8, symbol: 1 },
                Relocation { offset: 0, symbol: 3 },
            ],
        },
        RelocationSection {
            section: 0,
            entries: vec![
                Relocation { offset: 0, symbol: 2 },
                Relocation { offset: 16, symbol: 0 },
                Relocation { offset: 16, symbol: 4 },
                Relocation { offset: 16, symbol: 1 },
                Relocation { offset: 24, symbol: 9 },
                Relocation { offset: 17, symbol: 2 },
            ],
        },
    ];
    let mut offsets = StringLiteralOffsets::new();
    offsets.insert(b".rodata.str1.1".to_vec(), 40);
    let mut text = lddw(1);
    text.extend(lddw(2));
    let resolved = resolve_relocations(&object, &mut text, &offsets).unwrap();
    assert_eq!(
        resolved.calls,
        vec![
            RelocatedCall { instruction_offset: 8, function_text_offset: 16 },
            RelocatedCall { instruction_offset: 16, function_text_offset: 16 },
        ]
    );
    assert_eq!(resolved.skipped, 3);
    let mut patched = lddw(4);
    patched[0] = 0xB8;
    patched.extend(lddw(42));
    patched[16] = 0xD8;
    assert_eq!(text, patched);
}

#[test]
fn call_target_beyond_thirty_two_bits_is_refused() {
    let (mut object, _) = sample();
    object.symbols = vec![symbol("x", 1, 1, 3, 2), symbol("f", 2, 1, 1 << 32, 1)];
    object.relocations = relocations(&[(0, 0), (8, 1), (16, 0)]);
    let mut text = lddw(1);
    text.extend(lddw(2));
    let offsets = StringLiteralOffsets::new();
    assert_eq!(
        resolve_relocations(&object, &mut text, &offsets),
        Err(Error::Overflow(Field::CallTarget))
    );
    let mut patched = lddw(4);
    patched[0] = 0xB8;
    patched.extend(lddw(2));
    assert_eq!(text, patched);
}

#[test]
fn load_is_patched_where_a_whole_load_stands() {
    let mut text = lddw(5);
    assert_eq!(patch_load_at(&mut text, 0, 10, 0xB8), Ok(()));
    assert_eq!(text[0], 0xB8);
    assert_eq!(read_lddw_immediate(&text, 0), 15);
    assert_eq!(patch_load_at(&mut text, 0, 10, 0xD8), Ok(()));
    assert_eq!(text[0], 0xB8);
    assert_eq!(read_lddw_immediate(&text, 0), 15);
    let mut short = lddw(5);
    short.truncate(15);
    let before = short.clone();
    assert_eq!(patch_load_at(&mut short, 0, 10, 0xB8), Ok(()));
    assert_eq!(short, before);
    let mut text = lddw(5);
    let before = text.clone();
    assert_eq!(patch_load_at(&mut text, 1, 10, 0xB8), Ok(()));
    assert_eq!(patch_load_at(&mut text, 16, 10, 0xB8), Ok(()));
    assert_eq!(patch_load_at(&mut text, u64::MAX, 10, 0xB8), Ok(()));
    assert_eq!(text, before);
    assert_eq!(
        patch_load_at(&mut text, 0, u32::MAX as u64 - 4, 0xB8),
        Err(Error::Overflow(Field::Immediate))
    );
    assert_eq!(patch_load_at(&mut text, 0, u64::MAX, 0xB8), Err(Error::Overflow(Field::Immediate)));
    assert_eq!(text, before);
    assert_eq!(patch_load_at(&mut text, 0, u32::MAX as u64 - 5, 0xB8), Ok(()));
    assert_eq!(read_lddw_immediate(&text, 0), u32::MAX);
}

#[test]
fn instructions_are_written_field_by_field() {
    let mut text: Vec<u8> = (0..32).collect();
    write_lddw(&mut text, 8, 0xD8, 0x0403_0201);
    assert_eq!(&text[8..24], &[0xD8, 9, 10, 11, 1, 2, 3, 4, 16, 17, 18, 19, 20, 21, 22, 23]);
    assert_eq!(&text[..8], &[0, 1, 2, 3, 4, 5, 6, 7]);
    assert_eq!(&text[24..], &[24, 25, 26, 27, 28, 29, 30, 31]);
    write_call(&mut text, 0, 0x30, 0xaabb_ccdd);
    assert_eq!(&text[..8], &[0, 0x30, 2, 3, 0xdd, 0xcc, 0xbb, 0xaa]);
    write_word(&mut text, 24, 0x1122_3344);
    assert_eq!(&text[24..], &[0x44, 0x33, 0x22, 0x11, 0, 0, 0, 0]);
    write_u32_le(&mut text, 28, 0xffff_fffe);
    assert_eq!(&text[24..], &[0x44, 0x33, 0x22, 0x11, 0xfe, 0xff, 0xff, 0xff]);
    assert_eq!(read_u32_le(&text, 28), 0xffff_fffe);
    assert_eq!(read_u32_le(&text, 24), 0x1122_3344);
    assert!(!is_lddw_at(&text, 8));
    text[8] = 0x18;
    assert!(is_lddw_at(&text, 8));
    assert!(is_lddw_at(&text, 16) == false);
    text[17] = 0x18;
    assert!(!is_lddw_at(&text, 17));
    assert_eq!(read_lddw_immediate(&text, 8), 0x0403_0201);
}

#[test]
fn bytes_are_compared_searched_and_copied() {
    assert!(bytes_equal(b"", b""));
    assert!(bytes_equal(b"abc", b"abc"));
    assert!(!bytes_equal(b"abc", b"abd"));
    assert!(!bytes_equal(b"abc", b"ab"));
    assert!(contains(b".rodata.str1.1", b".rodata.str"));
    assert!(contains(b"x.rodata.str", b".rodata.str"));
    assert!(contains(b".rodata.str", b".rodata.str"));
    assert!(!contains(b".rodata.st", b".rodata.str"));
    assert!(!contains(b".rodata", b".rodata.str"));
    assert!(!contains(b"", b"a"));
    assert!(contains(b"", b""));
    assert!(contains(b"abc", b""));
    assert!(contains(b"aab", b"ab"));
    assert!(!contains(b"aba", b"bb"));
    let mut out = vec![9];
    append_range(&mut out, b"abcdef", 2, 5);
    assert_eq!(out, vec![9, b'c', b'd', b'e']);
    append_range(&mut out, b"abcdef", 3, 3);
    assert_eq!(out.len(), 4);
    append_u16_le(&mut out, 0x1234);
    append_u32_le(&mut out, 0x89ab_cdef);
    assert_eq!(&out[4..], &[0x34, 0x12, 0xef, 0xcd, 0xab, 0x89]);
}

#[test]
fn regions_are_padded_to_whole_instructions() {
    for len in 0..40usize {
        let mut region = vec![7u8; len];
        pad_region(&mut region);
        assert_eq!(region.len(), (len + 7) / 8 * 8);
        assert!(region[..len].iter().all(|b| *b == 7));
        assert!(region[len..].iter().all(|b| *b == 0));
    }
}

#[test]
fn image_is_the_regions_behind_the_header() {
    let functions = [
        FunctionSymbol { name_offset: 0x0102, flags: 0, location_offset: 0x0304 },
        FunctionSymbol { name_offset: 5, flags: 0xffff, location_offset: 6 },
    ];
    let calls = [
        RelocatedCall { instruction_offset: 0x0a0b_0c0d, function_text_offset: 8 },
        RelocatedCall { instruction_offset: 16, function_text_offset: 0xffff_ffff },
    ];
    let text = [0x95u8, 0, 0, 0, 0, 0, 0, 0];
    let image = assemble(vec![1, 2, 3], vec![4; 8], &text, &functions, &calls).unwrap();
    let mut expected = Vec::new();
    for field in [123u32, 0, 0, 8, 8, 8, 2] {
        expected.extend_from_slice(&field.to_le_bytes());
    }
    expected.extend_from_slice(&[1, 2, 3, 0, 0, 0, 0, 0]);
    expected.extend_from_slice(&[4; 8]);
    expected.extend_from_slice(&text);
    expected.extend_from_slice(&[2, 1, 0, 0, 4, 3, 5, 0, 0xff, 0xff, 6, 0]);
    expected.extend_from_slice(&[0x0d, 0x0c, 0x0b, 0x0a, 8, 0, 0, 0]);
    expected.extend_from_slice(&[16, 0, 0, 0, 0xff, 0xff, 0xff, 0xff]);
    assert_eq!(image, expected);
    assert_eq!(
        read_header(&image),
        Some(Header {
            magic: 123,
            version: 0,
            flags: 0,
            data_len: 8,
            rodata_len: 8,
            text_len: 8,
            functions_len: 2,
        })
    );
    assert_eq!(read_header(&image[..27]), None);
    assert_eq!(assemble(Vec::new(), Vec::new(), &[], &[], &[]).unwrap().len(), 28);
    assert_eq!(
        assemble(Vec::new(), Vec::new(), &[0u8; 7], &[], &[]),
        Err(Error::UnalignedText)
    );
    let mut table = vec![1u8];
    append_function_table(&mut table, &functions[..1]);
    append_call_table(&mut table, &calls[..1]);
    assert_eq!(table, vec![1, 2, 1, 0, 0, 4, 3, 0x0d, 0x0c, 0x0b, 0x0a, 8, 0, 0, 0]);
    let mut header = Vec::new();
    append_header(&mut header, &read_header(&image).unwrap());
    assert_eq!(header, image[..28].to_vec());
}

#[test]
fn object_is_assembled_step_by_step() {
    let (mut object, bytes) = sample();
    object.symbols = vec![
        symbol("", 3, 0, 0, 3),
        symbol("main", 2, 1, 0, 1),
        symbol("x", 1, 1, 2, 2),
        symbol("", 3, 0, 0, 2),
    ];
    object.relocations = relocations(&[(0, 0), (16, 2), (16, 1), (0, 3)]);
    let assembled = assemble_object(&object, &bytes).unwrap();
    let mut expected = Vec::new();
    for field in [123u32, 0, 0, 16, 16, 32, 1] {
        expected.extend_from_slice(&field.to_le_bytes());
    }
    expected.extend_from_slice(&bytes[32..48]);
    expected.extend_from_slice(b"hello\0main\0\0\0\0\0\0");
    let mut text = lddw(1);
    text[0] = 0xD8;
    text.extend(lddw(4));
    text[16] = 0xB8;
    expected.extend_from_slice(&text);
    expected.extend_from_slice(&[6, 0, 0, 0, 0, 0]);
    expected.extend_from_slice(&[16, 0, 0, 0, 0, 0, 0, 0]);
    assert_eq!(assembled, Assembled { image: expected, skipped_relocations: 1 });
}

#[test]
fn layouts_are_made_from_the_same_object_file() {
    let garbage = b"no object".to_vec();
    assert_eq!(apply_layout(BinaryFileLayout::RawObjectFile, &garbage), Ok(garbage.clone()));
    assert_eq!(apply_layout(BinaryFileLayout::OnlyTextSection, &garbage), Err(Error::Parse));
    assert_eq!(apply_layout(BinaryFileLayout::FemtoContainersHeader, &garbage), Err(Error::Parse));
    assert_eq!(apply_layout(BinaryFileLayout::ExtendedHeader, &garbage), Err(Error::Parse));
    assert_eq!(extract_text_section(&garbage), Err(Error::Parse));
}

#[test]
fn places_to_patch_are_found_before_any_is_patched() {
    let (mut object, _) = sample();
    object.sections[0].info = 1;
    object.sections[1].offset = 64;
    object.sections[2].offset = 128;
    object.symbols = vec![symbol("x", 1, 1, 4, 2), symbol("f", 2, 1, 8, 1)];
    object.relocations = relocations(&[(0, 0), (16, 1), (24, 7)]);
    assert_eq!(
        collect_patches(&object, 0x1000),
        Ok(vec![
            Patch { site: 64, value: 0x1000 + 128 + 4 },
            Patch { site: 80, value: 0x1000 + 64 + 8 },
        ])
    );
    object.symbols[1].section = 4;
    assert_eq!(collect_patches(&object, 0x1000), Err(Error::UnknownSection));
    object.symbols[1].section = 1;
    object.relocations[0].section = 4;
    assert_eq!(collect_patches(&object, 0x1000), Err(Error::UnknownSection));
    object.relocations[0].section = 0;
    object.sections[0].info = 4;
    assert_eq!(collect_patches(&object, 0x1000), Err(Error::UnknownSection));
    object.sections[0].info = 1;
    assert_eq!(
        collect_patches(&object, u32::MAX - 131),
        Err(Error::Overflow(Field::Address))
    );
    assert_eq!(collect_patches(&object, u32::MAX - 132).unwrap().len(), 2);
    object.relocations[0].entries[0].offset = u64::MAX - 63;
    assert_eq!(collect_patches(&object, 0), Err(Error::RelocationOutOfBounds));
    let mut program = vec![0u8; 16];
    assert_eq!(relocate_object(&object, &mut program, 0), Err(Error::RelocationOutOfBounds));
    assert_eq!(program, vec![0u8; 16]);
}

#[test]
fn patch_is_made_by_the_opcode_at_its_site() {
    let mut program = lddw(7);
    program.extend_from_slice(&[0x85, 0x10, 1, 2, 0xff, 0xff, 0xff, 0xff]);
    program.extend_from_slice(&[0, 1, 2, 3, 4, 5, 6, 7]);
    program.extend_from_slice(&[0x95, 0, 0, 0, 0, 0, 0, 0]);
    let untouched = program.clone();
    assert_eq!(patch_program(&mut program, &Patch { site: 0, value: 0x100 }), Ok(()));
    assert_eq!(patch_program(&mut program, &Patch { site: 16, value: 0x200 }), Ok(()));
    assert_eq!(patch_program(&mut program, &Patch { site: 24, value: 0x300 }), Ok(()));
    assert_eq!(patch_program(&mut program, &Patch { site: 32, value: 0x400 }), Ok(()));
    let mut expected = lddw(0x107);
    expected.extend_from_slice(&[0x85, 0x30, 1, 2, 0, 2, 0, 0]);
    expected.extend_from_slice(&[0, 3, 0, 0, 0, 0, 0, 0]);
    expected.extend_from_slice(&[0x95, 0, 0, 0, 0, 0, 0, 0]);
    assert_eq!(program, expected);

    let mut program = untouched.clone();
    assert_eq!(
        patch_program(&mut program, &Patch { site: 40, value: 1 }),
        Err(Error::RelocationOutOfBounds)
    );
    assert_eq!(
        patch_program(&mut program, &Patch { site: 0, value: u32::MAX - 6 }),
        Err(Error::Overflow(Field::Immediate))
    );
    assert_eq!(program, untouched);
    let mut cut = untouched[..30].to_vec();
    assert_eq!(
        patch_program(&mut cut, &Patch { site: 24, value: 1 }),
        Err(Error::RelocationOutOfBounds)
    );
    assert_eq!(
        patch_program(&mut cut, &Patch { site: 16, value: 1 }),
        Ok(())
    );
    let mut cut = untouched[..15].to_vec();
    assert_eq!(
        patch_program(&mut cut, &Patch { site: 0, value: 1 }),
        Err(Error::RelocationOutOfBounds)
    );
    let mut cut = untouched[..20].to_vec();
    assert_eq!(
        patch_program(&mut cut, &Patch { site: 16, value: 1 }),
        Err(Error::RelocationOutOfBounds)
    );
    assert_eq!(cut, untouched[..20].to_vec());
}

#[test]
fn patches_are_made_in_order_until_one_fails() {
    let (mut object, _) = sample();
    object.sections[0].info = 1;
    object.symbols = vec![symbol("x", 1, 1, 0, 2)];
    object.relocations = relocations(&[(0, 0), (0, 0), (40, 0), (16, 0)]);
    let mut program = lddw(0);
    program.extend(lddw(0));
    assert_eq!(relocate_object(&object, &mut program, 100), Err(Error::RelocationOutOfBounds));
    let mut expected = lddw(264);
    expected.extend(lddw(0));
    assert_eq!(program, expected);
}
