use micro_bpf::environment::{environment_file, Environment, Variables};
use micro_bpf::configuration::{
    BinaryFileLayout, ExecutionModel, HelperAccessListSource, HelperAccessVerification, TargetVM,
};
use micro_bpf::helpers::{
    encode, helpers_with_ids, select_helpers, HelperFunctionID, VMExecutionRequestMsg,
};
use micro_bpf::naming::{
    file_name, get_binary_file_name, get_execution_address, get_manifest_name, get_message_address,
    get_object_file_name, get_output_name, get_pull_address, get_served_binary_name,
    get_signing_script_name, helper_indices_text, source_base_name,
};
use micro_bpf::text::{
    append_number, append_without, parse_number, parse_u8, setting_or_default, split_text,
    str_equal, NumberError,
};

fn written(value: u64, radix: u64, width: usize) -> String {
    let mut out = String::from(">");
    append_number(&mut out, value, radix, width);
    out
}

fn kind_of(error: &std::num::ParseIntError) -> NumberError {
    match error.kind() {
        std::num::IntErrorKind::Empty => NumberError::Empty,
        std::num::IntErrorKind::InvalidDigit => NumberError::InvalidDigit,
        std::num::IntErrorKind::PosOverflow => NumberError::TooLarge,
        other => panic!("unexpected kind {:?}", other),
    }
}

#[test]
fn numbers_are_written_digit_by_digit() {
    assert_eq!(written(0, 10, 1), ">0");
    assert_eq!(written(0, 10, 0), ">0");
    assert_eq!(written(7, 10, 3), ">007");
    assert_eq!(written(1234, 10, 2), ">1234");
    assert_eq!(written(255, 16, 2), ">ff");
    assert_eq!(written(10, 16, 2), ">0a");
    assert_eq!(written(0x1234, 16, 2), ">1234");
    assert_eq!(written(5, 2, 8), ">00000101");
    assert_eq!(written(u64::MAX, 10, 1), format!(">{}", u64::MAX));
    assert_eq!(written(u64::MAX, 16, 20), format!(">{:020x}", u64::MAX));
}

#[test]
fn numbers_are_written_as_the_formatter_writes_them() {
    for value in 0..2000u64 {
        assert_eq!(written(value, 10, 1), format!(">{}", value));
        assert_eq!(written(value, 16, 2), format!(">{:02x}", value));
        assert_eq!(written(value, 8, 5), format!(">{:05o}", value));
    }
}

#[test]
fn numbers_are_read_as_the_standard_library_reads_them() {
    let alphabet = ["", "0", "1", "9", "a", "F", "g", "z", "+", "-", " ", "_", "é", "25", "6"];
    let mut texts: Vec<String> = Vec::new();
    for a in alphabet {
        for b in alphabet {
            for c in alphabet {
                texts.push(format!("{}{}{}", a, b, c));
            }
        }
    }
    texts.push("0000000000000000000255".to_string());
    texts.push("256".to_string());
    texts.push("+255".to_string());
    texts.push("++1".to_string());
    for text in &texts {
        for radix in [2u8, 10, 16, 36] {
            let expected = u8::from_str_radix(text, radix as u32).map_err(|e| kind_of(&e));
            assert_eq!(parse_u8(text.as_bytes(), radix), expected, "{:?} in base {}", text, radix);
        }
    }
}

#[test]
fn numbers_are_read_up_to_the_bound() {
    assert_eq!(parse_number(b"18446744073709551615", 10, u64::MAX), Ok(u64::MAX));
    assert_eq!(parse_number(b"18446744073709551616", 10, u64::MAX), Err(NumberError::TooLarge));
    assert_eq!(parse_number(b"100", 10, 100), Ok(100));
    assert_eq!(parse_number(b"101", 10, 100), Err(NumberError::TooLarge));
    assert_eq!(parse_number(b"999x", 10, 255), Err(NumberError::TooLarge));
    assert_eq!(parse_number(b"9x99", 10, 255), Err(NumberError::InvalidDigit));
    assert_eq!(parse_number(b"", 10, 255), Err(NumberError::Empty));
    assert_eq!(parse_number(b"+", 10, 255), Err(NumberError::InvalidDigit));
    assert_eq!(parse_number(b"ff", 16, 255), Ok(255));
    assert_eq!(parse_number(b"zz", 36, 2000), Ok(35 * 36 + 35));
}

#[test]
fn setting_comes_from_the_environment_or_the_default() {
    assert_eq!(setting_or_default(None, 2), Ok(2));
    assert_eq!(setting_or_default(Some("4"), 2), Ok(4));
    assert_eq!(setting_or_default(Some("+4096"), 2), Ok(4096));
    assert_eq!(setting_or_default(Some(""), 2), Err(NumberError::Empty));
    assert_eq!(setting_or_default(Some("four"), 2), Err(NumberError::InvalidDigit));
    assert_eq!(setting_or_default(Some("-1"), 2), Err(NumberError::InvalidDigit));
    let large = format!("{}0", usize::MAX);
    assert_eq!(setting_or_default(Some(&large), 2), Err(NumberError::TooLarge));
    let largest = format!("{}", usize::MAX);
    assert_eq!(setting_or_default(Some(&largest), 2), Ok(usize::MAX));
}

#[test]
fn text_is_split_at_every_separator() {
    assert_eq!(split_text("a|b|c", '|'), vec!["a", "b", "c"]);
    assert_eq!(split_text("", '|'), vec![""]);
    assert_eq!(split_text("|", '|'), vec!["", ""]);
    assert_eq!(split_text("a||b|", '|'), vec!["a", "", "b", ""]);
    assert_eq!(split_text("no bars", '|'), vec!["no bars"]);
    assert_eq!(split_text("é|ü", '|'), vec!["é", "ü"]);
    for text in ["", "/", "a/b", "//a//", "./out/file.c", "a.b.c"] {
        for separator in ['/', '.'] {
            let expected: Vec<String> = text.split(separator).map(String::from).collect();
            assert_eq!(split_text(text, separator), expected);
            assert_eq!(split_text(text, separator).join(&separator.to_string()), text);
        }
    }
}

#[test]
fn text_is_copied_without_a_character() {
    let mut out = String::from("x");
    append_without(&mut out, "fe80::a0d9:ebff", ':');
    assert_eq!(out, "xfe80a0d9ebff");
    append_without(&mut out, ":::", ':');
    assert_eq!(out, "xfe80a0d9ebff");
    append_without(&mut out, "é:é", ':');
    assert_eq!(out, "xfe80a0d9ebfféé");
}

#[test]
fn strings_are_equal_by_their_characters() {
    assert!(str_equal("", ""));
    assert!(str_equal("rBPF", "rBPF"));
    assert!(!str_equal("rBPF", "rbpf"));
    assert!(!str_equal("rBPF", "rBPF "));
    assert!(!str_equal("é", "e"));
}

#[test]
fn names_are_read_as_they_are_spelled() {
    assert_eq!(TargetVM::from_str("rBPF"), Ok(TargetVM::Rbpf));
    assert_eq!(TargetVM::from_str("FemtoContainer"), Ok(TargetVM::FemtoContainer));
    assert_eq!(TargetVM::from_str("Rbpf"), Err("Unknown target VM: Rbpf".to_string()));
    assert_eq!(TargetVM::from_str(""), Err("Unknown target VM: ".to_string()));
    assert_eq!(BinaryFileLayout::from_str("OnlyTextSection"), Ok(BinaryFileLayout::OnlyTextSection));
    assert_eq!(
        BinaryFileLayout::from_str("FemtoContainersHeader"),
        Ok(BinaryFileLayout::FemtoContainersHeader)
    );
    assert_eq!(BinaryFileLayout::from_str("ExtendedHeader"), Ok(BinaryFileLayout::ExtendedHeader));
    assert_eq!(BinaryFileLayout::from_str("RawObjectFile"), Ok(BinaryFileLayout::RawObjectFile));
    assert_eq!(
        BinaryFileLayout::from_str("FunctionRelocationMetadata"),
        Err("Unknown binary file layout: FunctionRelocationMetadata".to_string())
    );
    assert_eq!(ExecutionModel::from_str("ShortLived"), Ok(ExecutionModel::ShortLived));
    assert_eq!(
        ExecutionModel::from_str("WithAccessToCoapPacket"),
        Ok(ExecutionModel::WithAccessToCoapPacket)
    );
    assert_eq!(ExecutionModel::from_str("LongRunning"), Ok(ExecutionModel::LongRunning));
    assert_eq!(
        ExecutionModel::from_str("Forever"),
        Err("Unknown execution model: Forever".to_string())
    );
    assert_eq!(
        HelperAccessVerification::from_str("AheadOfTime"),
        Ok(HelperAccessVerification::AheadOfTime)
    );
    assert_eq!(HelperAccessVerification::from_str("LoadTime"), Ok(HelperAccessVerification::LoadTime));
    assert_eq!(
        HelperAccessVerification::from_str("PreFlight"),
        Ok(HelperAccessVerification::PreFlight)
    );
    assert_eq!(HelperAccessVerification::from_str("Runtime"), Ok(HelperAccessVerification::Runtime));
    assert_eq!(
        HelperAccessVerification::from_str("Never"),
        Err("Unknown helper access verification type: Never".to_string())
    );
    assert_eq!(
        HelperAccessListSource::from_str("ExecuteRequest"),
        Ok(HelperAccessListSource::ExecuteRequest)
    );
    assert_eq!(
        HelperAccessListSource::from_str("BinaryMetadata"),
        Ok(HelperAccessListSource::BinaryMetadata)
    );
    assert_eq!(
        HelperAccessListSource::from_str("binary"),
        Err("Unknown helper access list source: binary".to_string())
    );
    assert_eq!(TargetVM::Rbpf.name(), "Rbpf");
    assert_eq!(TargetVM::FemtoContainer.name(), "FemtoContainer");
}

#[test]
fn helpers_have_the_ids_of_their_calls() {
    assert_eq!(HelperFunctionID::BPF_PRINTF_IDX.id(), 0x01);
    assert_eq!(HelperFunctionID::BPF_DEBUG_PRINT_IDX.id(), 0x03);
    assert_eq!(HelperFunctionID::BPF_MEMCPY_IDX.id(), 0x02);
    assert_eq!(HelperFunctionID::BPF_STORE_LOCAL_IDX.id(), 0x10);
    assert_eq!(HelperFunctionID::BPF_STORE_GLOBAL_IDX.id(), 0x11);
    assert_eq!(HelperFunctionID::BPF_FETCH_LOCAL_IDX.id(), 0x12);
    assert_eq!(HelperFunctionID::BPF_FETCH_GLOBAL_IDX.id(), 0x13);
    assert_eq!(HelperFunctionID::BPF_SAUL_REG_FIND_NTH_IDX.id(), 0x30);
    assert_eq!(HelperFunctionID::BPF_SAUL_REG_FIND_TYPE_IDX.id(), 0x31);
    assert_eq!(HelperFunctionID::BPF_SAUL_REG_READ_IDX.id(), 0x32);
    assert_eq!(HelperFunctionID::BPF_SAUL_REG_WRITE_IDX.id(), 0x33);
    assert_eq!(HelperFunctionID::BPF_SAUL_REG_READ_TEMP.id(), 0x34);
    assert_eq!(HelperFunctionID::BPF_GCOAP_RESP_INIT_IDX.id(), 0x40);
    assert_eq!(HelperFunctionID::BPF_COAP_OPT_FINISH_IDX.id(), 0x41);
    assert_eq!(HelperFunctionID::BPF_COAP_ADD_FORMAT_IDX.id(), 0x42);
    assert_eq!(HelperFunctionID::BPF_COAP_GET_PDU_IDX.id(), 0x43);
    assert_eq!(HelperFunctionID::BPF_STRLEN_IDX.id(), 0x52);
    assert_eq!(HelperFunctionID::BPF_FMT_S16_DFP_IDX.id(), 0x50);
    assert_eq!(HelperFunctionID::BPF_FMT_U32_DEC_IDX.id(), 0x51);
    assert_eq!(HelperFunctionID::BPF_NOW_MS_IDX.id(), 0x20);
    assert_eq!(HelperFunctionID::BPF_ZTIMER_NOW_IDX.id(), 0x60);
    assert_eq!(HelperFunctionID::BPF_PERIODIC_WAKEUP_IDX.id(), 0x61);
    assert_eq!(HelperFunctionID::BPF_GPIO_READ_INPUT.id(), 0x70);
    assert_eq!(HelperFunctionID::BPF_GPIO_READ_RAW.id(), 0x71);
    assert_eq!(HelperFunctionID::BPF_GPIO_WRITE.id(), 0x72);
    assert_eq!(HelperFunctionID::BPF_HD44780_INIT.id(), 0x80);
    assert_eq!(HelperFunctionID::BPF_HD44780_CLEAR.id(), 0x81);
    assert_eq!(HelperFunctionID::BPF_HD44780_PRINT.id(), 0x82);
    assert_eq!(HelperFunctionID::BPF_HD44780_SET_CURSOR.id(), 0x83);
    assert_eq!(HelperFunctionID::BPF_KEYPAD_GET_INPUT.id(), 0x84);
}

#[test]
fn helpers_are_found_by_their_ids() {
    let all = HelperFunctionID::all();
    assert_eq!(all.len(), 30);
    assert_eq!(all[0], HelperFunctionID::BPF_PRINTF_IDX);
    assert_eq!(all[1], HelperFunctionID::BPF_DEBUG_PRINT_IDX);
    assert_eq!(all[2], HelperFunctionID::BPF_MEMCPY_IDX);
    assert_eq!(all[29], HelperFunctionID::BPF_KEYPAD_GET_INPUT);
    let mut known = 0;
    for id in 0..=255u8 {
        match HelperFunctionID::from_u8(id) {
            Some(helper) => {
                assert_eq!(helper.id(), id);
                assert!(all.contains(&helper));
                known += 1;
            }
            None => assert!(all.iter().all(|h| h.id() != id)),
        }
    }
    assert_eq!(known, 30);
    assert_eq!(HelperFunctionID::from_u8(0), None);
    assert_eq!(HelperFunctionID::from_u8(0x04), None);
    assert_eq!(HelperFunctionID::from_u8(0x84), Some(HelperFunctionID::BPF_KEYPAD_GET_INPUT));
}

#[test]
fn helpers_are_selected_by_a_list_of_ids() {
    assert_eq!(select_helpers(&[]), HelperFunctionID::all());
    assert_eq!(
        select_helpers(&[0x20, 0xff, 0x01, 0x20]),
        vec![
            HelperFunctionID::BPF_NOW_MS_IDX,
            HelperFunctionID::BPF_PRINTF_IDX,
            HelperFunctionID::BPF_NOW_MS_IDX,
        ]
    );
    assert_eq!(select_helpers(&[0xff]), Vec::new());
    assert_eq!(helpers_with_ids(&[]), Vec::new());
    assert_eq!(helpers_with_ids(&[2, 4]), vec![HelperFunctionID::BPF_MEMCPY_IDX]);
}

#[test]
fn helper_bitmap_has_one_bit_for_each_index() {
    assert_eq!(encode(&[]), [0, 0, 0]);
    assert_eq!(encode(&[0]), [1, 0, 0]);
    assert_eq!(encode(&[7]), [0x80, 0, 0]);
    assert_eq!(encode(&[8]), [0, 1, 0]);
    assert_eq!(encode(&[23]), [0, 0, 0x80]);
    assert_eq!(encode(&[1, 3, 1, 9, 16, 17]), [0b1010, 0b10, 0b11]);
    let all: Vec<u8> = (0..24).collect();
    assert_eq!(encode(&all), [0xff, 0xff, 0xff]);
    let message = VMExecutionRequestMsg::new(5, &[1, 2, 20]);
    assert_eq!(
        message,
        VMExecutionRequestMsg { configuration: 5, available_helpers: [0b110, 0, 0b1_0000] }
    );
}

#[test]
fn helper_indices_are_written_in_pairs_of_digits() {
    assert_eq!(helper_indices_text(&[]), "");
    assert_eq!(helper_indices_text(&[1, 3, 0x84, 0xff, 0]), "010384ff00");
}

#[test]
fn object_file_is_named_after_the_source_file() {
    assert_eq!(get_object_file_name("bpf/tests/printf.c", "./out"), Ok("./out/printf.o".to_string()));
    assert_eq!(get_object_file_name("printf.c", "out"), Ok("out/printf.o".to_string()));
    assert_eq!(get_object_file_name("a/b.tar.gz", ""), Ok("/b.o".to_string()));
    assert_eq!(get_object_file_name("a.d/plain", "o"), Ok("o/plain.o".to_string()));
    assert_eq!(get_object_file_name("a/", "o"), Ok("o/.o".to_string()));
    assert_eq!(get_object_file_name("", "o"), Ok("o/.o".to_string()));
    assert_eq!(get_object_file_name("dir/.hidden", "o"), Ok("o/.o".to_string()));
    assert_eq!(get_binary_file_name("bpf/tests/printf.c", "bpf/tests"), "bpf/tests/printf.bin");
    assert_eq!(source_base_name("x/y/z.c.bak"), "z");
    assert_eq!(file_name("x/y/z.c.bak"), "z.c.bak");
    assert_eq!(file_name("plain"), "plain");
    assert_eq!(file_name("dir/"), "");
}

#[test]
fn files_of_a_deployment_have_their_names() {
    assert_eq!(get_manifest_name(0), "suit_manifest0.signed");
    assert_eq!(get_manifest_name(1), "suit_manifest1.signed");
    assert_eq!(get_manifest_name(12), "suit_manifest12.signed");
    assert_eq!(get_manifest_name(usize::MAX), format!("suit_manifest{}.signed", usize::MAX));
    assert_eq!(get_served_binary_name("coaproot", "out/program.bin"), "coaproot/program.bin");
    assert_eq!(get_served_binary_name("coaproot", "program.bin"), "coaproot/program.bin");
    assert_eq!(get_signing_script_name(None), "./scripts/sign-binary.sh");
    assert_eq!(get_signing_script_name(Some("..")), "../scripts/sign-binary.sh");
    assert_eq!(get_output_name(None), "a.bin");
    assert_eq!(get_output_name(Some("program.bin")), "program.bin");
}

#[test]
fn requests_go_to_the_resources_of_the_device() {
    assert_eq!(
        get_execution_address("fe80::1", "tapbr0", ExecutionModel::ShortLived, false),
        "coap://[fe80::1%tapbr0]/short-execution"
    );
    assert_eq!(
        get_execution_address("fe80::1", "tapbr0", ExecutionModel::WithAccessToCoapPacket, false),
        "coap://[fe80::1%tapbr0]/with_coap_pkt"
    );
    assert_eq!(
        get_execution_address("fe80::1", "wlan0", ExecutionModel::LongRunning, true),
        "coap://[fe80::1%wlan0]/benchmark/long-running"
    );
    assert_eq!(get_pull_address("fe80::1", "wlan0"), "coap://[fe80::1%wlan0]/suit/pull");
    assert_eq!(
        get_message_address("fe80::1", "wlan0", ExecutionModel::ShortLived),
        "coap://[fe80::1%wlan0]/vm/exec"
    );
    assert_eq!(
        get_message_address("fe80::1", "wlan0", ExecutionModel::WithAccessToCoapPacket),
        "coap://[fe80::1%wlan0]/vm/exec/coap-pkt"
    );
    assert_eq!(
        get_message_address("fe80::1", "wlan0", ExecutionModel::LongRunning),
        "coap://[fe80::1%wlan0]/vm/spawn"
    );
}

#[test]
fn environment_has_a_default_for_each_setting() {
    let nothing = Variables {
        micro_bpf_root_dir: None,
        coap_root_dir: None,
        out_dir: None,
        src_dir: None,
        riot_instance_net_if: None,
        riot_instance_ip: None,
        host_net_if: None,
        host_ip: None,
        board_name: None,
    };
    let environment = Environment::from_variables(nothing.clone());
    assert_eq!(
        environment,
        Environment {
            micro_bpf_root_dir: "..".to_string(),
            coap_root_dir: "../coaproot".to_string(),
            out_dir: "../out".to_string(),
            src_dir: "../bpf/tests".to_string(),
            riot_instance_net_if: "6".to_string(),
            riot_instance_ip: "fe80::a0d9:ebff:fed5:986b".to_string(),
            host_net_if: "tapbr0".to_string(),
            host_ip: "bad-ip".to_string(),
            board_name: "bad-board".to_string(),
        }
    );
    let mut some = nothing;
    some.host_ip = Some("fe80::2".to_string());
    some.board_name = Some(String::new());
    some.out_dir = Some("out".to_string());
    let environment = Environment::from_variables(some);
    assert_eq!(environment.host_ip, "fe80::2");
    assert_eq!(environment.board_name, "");
    assert_eq!(environment.out_dir, "out");
    assert_eq!(environment.src_dir, "../bpf/tests");
    assert_eq!(environment_file(None), ".env-nucleo");
    assert_eq!(environment_file(Some(".env".to_string())), ".env");
}
