use micro_bpf::configuration::{
    BinaryFileLayout, HelperAccessListSource, HelperAccessVerification, TargetVM, VMConfiguration,
};
use micro_bpf::helpers::HelperFunctionID;
use micro_bpf::requests::{read_address, SuitPullRequest, VMExecutionRequest};

fn configuration(slot: usize, jit: bool) -> VMConfiguration {
    VMConfiguration::new(
        TargetVM::FemtoContainer,
        slot,
        BinaryFileLayout::FemtoContainersHeader,
        HelperAccessVerification::AheadOfTime,
        HelperAccessListSource::ExecuteRequest,
        jit,
        false,
    )
}

fn pull_request() -> SuitPullRequest {
    SuitPullRequest {
        ip: "fe80::a0d9:ebff:fed5:986b".to_string(),
        manifest: "suit_manifest0.signed".to_string(),
        riot_netif: "6".to_string(),
        config: 35,
        helpers: "0103".to_string(),
        erase: true,
    }
}

#[test]
fn execution_request_is_written_in_pairs_of_digits() {
    let request = VMExecutionRequest::new(
        configuration(1, false),
        vec![
            HelperFunctionID::BPF_PRINTF_IDX,
            HelperFunctionID::BPF_DEBUG_PRINT_IDX,
            HelperFunctionID::BPF_KEYPAD_GET_INPUT,
            HelperFunctionID::BPF_STORE_LOCAL_IDX,
        ],
    );
    assert_eq!(request.configuration.encode(), 0x23);
    assert_eq!(request.encode(), "2301038410");
}

#[test]
fn execution_request_without_helpers_is_the_configuration() {
    let request = VMExecutionRequest::new(configuration(0, false), Vec::new());
    assert_eq!(request.encode(), "21");
    let zero = VMConfiguration::decode(0);
    assert_eq!(VMExecutionRequest::new(zero, Vec::new()).encode(), "00");
    let small = VMConfiguration::decode(0x0e);
    assert_eq!(VMExecutionRequest::new(small, Vec::new()).encode(), "0e");
}

#[test]
fn execution_request_with_a_wide_configuration_takes_more_digits() {
    let request = VMExecutionRequest::new(configuration(2, true), vec![HelperFunctionID::BPF_MEMCPY_IDX]);
    assert_eq!(request.configuration.encode(), 0x425);
    assert_eq!(request.encode(), "42502");
    assert_eq!(request.encode(), format!("{:02x}{:02x}", 0x425, 2));
}

#[test]
fn execution_request_is_written_as_the_formatter_writes_it() {
    for encoding in 0..4096u16 {
        let request = VMExecutionRequest::new(
            VMConfiguration::decode(encoding),
            vec![HelperFunctionID::BPF_NOW_MS_IDX],
        );
        assert_eq!(request.encode(), format!("{:02x}20", encoding));
    }
    for helper in HelperFunctionID::all() {
        let request = VMExecutionRequest::new(VMConfiguration::decode(0), vec![helper]);
        assert_eq!(request.encode(), format!("00{:02x}", helper.id()));
    }
}

#[test]
fn execution_request_is_read_back() {
    let request = VMExecutionRequest::new(
        configuration(3, false),
        vec![HelperFunctionID::BPF_GPIO_WRITE, HelperFunctionID::BPF_STRLEN_IDX],
    );
    let decoded = VMExecutionRequest::decode(request.encode()).unwrap();
    assert_eq!(decoded, request);
    let decoded = VMExecutionRequest::decode("277252".to_string()).unwrap();
    assert_eq!(decoded, request);
}

#[test]
fn execution_request_drops_ids_without_helper() {
    let decoded = VMExecutionRequest::decode("00ff0100".to_string()).unwrap();
    assert_eq!(decoded.allowed_helpers, vec![HelperFunctionID::BPF_PRINTF_IDX]);
    assert_eq!(decoded.configuration, VMConfiguration::decode(0));
}

#[test]
fn execution_request_takes_digits_of_either_case_and_a_sign() {
    let decoded = VMExecutionRequest::decode("FF+1+3".to_string()).unwrap();
    assert_eq!(decoded.configuration, VMConfiguration::decode(0xff));
    assert_eq!(
        decoded.allowed_helpers,
        vec![HelperFunctionID::BPF_PRINTF_IDX, HelperFunctionID::BPF_DEBUG_PRINT_IDX]
    );
}

#[test]
fn execution_request_refuses_what_is_no_number() {
    assert_eq!(
        VMExecutionRequest::decode("zz01".to_string()),
        Err("Unable to parse the vm configuration from the encoded string: invalid digit found in string"
            .to_string())
    );
    assert_eq!(
        VMExecutionRequest::decode("00g1".to_string()),
        Err("Unable to parse: invalid digit found in string".to_string())
    );
    assert_eq!(
        VMExecutionRequest::decode("0001-1".to_string()),
        Err("Unable to parse: invalid digit found in string".to_string())
    );
    assert_eq!(
        VMExecutionRequest::decode("00é".to_string()),
        Err("Unable to parse: invalid digit found in string".to_string())
    );
    assert_eq!(
        VMExecutionRequest::decode("0x01".to_string()),
        Err("Unable to parse the vm configuration from the encoded string: invalid digit found in string"
            .to_string())
    );
}

#[test]
fn execution_request_reports_the_first_failure() {
    assert_eq!(
        VMExecutionRequest::decode("00zz0".to_string()),
        Err("Unable to parse: invalid digit found in string".to_string())
    );
    assert_eq!(
        VMExecutionRequest::decode("zz0".to_string()),
        Err("Unable to parse the vm configuration from the encoded string: invalid digit found in string"
            .to_string())
    );
}

#[test]
fn execution_request_refuses_half_a_pair() {
    let message = Err("Invalid length of the encoded request".to_string());
    assert_eq!(VMExecutionRequest::decode("".to_string()), message);
    assert_eq!(VMExecutionRequest::decode("0".to_string()), message);
    assert_eq!(VMExecutionRequest::decode("000".to_string()), message);
    assert_eq!(VMExecutionRequest::decode("00010".to_string()), message);
}

#[test]
fn pull_request_is_written_with_bars() {
    assert_eq!(
        pull_request().encode(),
        "fe80a0d9ebfffed5986b|suit_manifest0.signed|6|35|0103|1"
    );
    let mut request = pull_request();
    request.erase = false;
    request.config = 0;
    request.helpers = String::new();
    request.ip = String::new();
    assert_eq!(request.encode(), "|suit_manifest0.signed|6|0||0");
    request.config = 255;
    request.ip = ":::".to_string();
    assert_eq!(request.encode(), "|suit_manifest0.signed|6|255||0");
}

#[test]
fn pull_request_is_written_as_the_formatter_writes_it() {
    for config in 0..=255u8 {
        let mut request = pull_request();
        request.config = config;
        assert_eq!(
            request.encode(),
            format!("fe80a0d9ebfffed5986b|suit_manifest0.signed|6|{}|0103|1", config)
        );
    }
}

#[test]
fn pull_request_is_read_back() {
    let request = pull_request();
    assert_eq!(SuitPullRequest::decode(request.encode()), Ok(request));
    let decoded = SuitPullRequest::decode("abcd|m|5|7||0".to_string()).unwrap();
    assert_eq!(
        decoded,
        SuitPullRequest {
            ip: "abcd::".to_string(),
            manifest: "m".to_string(),
            riot_netif: "5".to_string(),
            config: 7,
            helpers: String::new(),
            erase: false,
        }
    );
}

#[test]
fn pull_request_allows_to_erase_on_one_alone() {
    assert!(SuitPullRequest::decode("abcd|m|5|7||1".to_string()).unwrap().erase);
    assert!(!SuitPullRequest::decode("abcd|m|5|7||true".to_string()).unwrap().erase);
    assert!(!SuitPullRequest::decode("abcd|m|5|7||01".to_string()).unwrap().erase);
    assert!(!SuitPullRequest::decode("abcd|m|5|7||".to_string()).unwrap().erase);
}

#[test]
fn pull_request_needs_six_sections() {
    let message = Err("Invalid number of sections in the request".to_string());
    assert_eq!(SuitPullRequest::decode("".to_string()), message);
    assert_eq!(SuitPullRequest::decode("abcd|m|5|7|".to_string()), message);
    assert_eq!(SuitPullRequest::decode("abcd|m|5|7||1|".to_string()), message);
    assert_eq!(SuitPullRequest::decode("zz|m|5|x".to_string()), message);
}

#[test]
fn pull_request_refuses_a_configuration_that_is_no_number() {
    assert_eq!(
        SuitPullRequest::decode("abcd|m|5|256||1".to_string()),
        Err("Unable to parse: number too large to fit in target type".to_string())
    );
    assert_eq!(
        SuitPullRequest::decode("abcd|m|5|||1".to_string()),
        Err("Unable to parse: cannot parse integer from empty string".to_string())
    );
    assert_eq!(
        SuitPullRequest::decode("abcd|m|5|1a||1".to_string()),
        Err("Unable to parse: invalid digit found in string".to_string())
    );
    assert_eq!(
        SuitPullRequest::decode("abcd|m|5|+||1".to_string()),
        Err("Unable to parse: invalid digit found in string".to_string())
    );
    assert_eq!(SuitPullRequest::decode("abcd|m|5|+007||1".to_string()).unwrap().config, 7);
}

#[test]
fn pull_request_refuses_an_address_without_groups() {
    let message = Err("Invalid address in the request".to_string());
    assert_eq!(SuitPullRequest::decode("|m|5|7||1".to_string()), message);
    assert_eq!(SuitPullRequest::decode("abc|m|5|7||1".to_string()), message);
    assert_eq!(SuitPullRequest::decode("abcde|m|5|7||1".to_string()), message);
    assert_eq!(SuitPullRequest::decode("abcé|m|5|7||1".to_string()), message);
    assert_eq!(SuitPullRequest::decode("abcd|m|5|x||1".to_string()).is_err(), true);
    assert_eq!(SuitPullRequest::decode("abc|m|5|x||1".to_string()), message);
}

#[test]
fn address_gets_its_colons_back() {
    assert_eq!(read_address("fe80a0d9ebfffed5986b"), Some("fe80::a0d9:ebff:fed5:986b".to_string()));
    assert_eq!(read_address("fe80"), Some("fe80::".to_string()));
    assert_eq!(read_address("fe800001"), Some("fe80::0001".to_string()));
    assert_eq!(read_address("fe8000010002"), Some("fe80::0001:0002".to_string()));
    assert_eq!(read_address("aéb0001"), Some("aéb::0001".to_string()));
    assert_eq!(read_address(""), None);
    assert_eq!(read_address("fe8"), None);
    assert_eq!(read_address("fe80a"), None);
    assert_eq!(read_address("abcé"), None);
    assert_eq!(read_address("abcéd"), None);
}
