use micro_bpf::configuration::{
    BinaryFileLayout, HelperAccessListSource, HelperAccessVerification, TargetVM, VMConfiguration,
};

#[test]
fn decode_after_encode_is_identity() {
    let configuration = VMConfiguration::new(
        TargetVM::FemtoContainer,
        1,
        BinaryFileLayout::FemtoContainersHeader,
        HelperAccessVerification::PreFlight,
        HelperAccessListSource::BinaryMetadata,
        true,
        false,
    );

    let encoded = configuration.encode();
    let decoded = VMConfiguration::decode(encoded);

    assert_eq!(configuration, decoded);
}

#[test]
fn encode_lays_the_fields_out_bit_by_bit() {
    let configuration = VMConfiguration::new(
        TargetVM::FemtoContainer,
        1,
        BinaryFileLayout::FemtoContainersHeader,
        HelperAccessVerification::PreFlight,
        HelperAccessListSource::BinaryMetadata,
        true,
        false,
    );
    // bit 0 = 1, slot 1 << 1, layout 1 << 5, verification 2 << 7, source 1 << 9, jit 1 << 10
    assert_eq!(configuration.encode(), 1 + 2 + 32 + 256 + 512 + 1024);
}

#[test]
fn encode_of_the_zero_configuration_is_zero() {
    let configuration = VMConfiguration::new(
        TargetVM::Rbpf,
        0,
        BinaryFileLayout::OnlyTextSection,
        HelperAccessVerification::AheadOfTime,
        HelperAccessListSource::ExecuteRequest,
        false,
        false,
    );
    assert_eq!(configuration.encode(), 0);
}

#[test]
fn encode_sets_every_bit_of_the_largest_configuration() {
    let configuration = VMConfiguration::new(
        TargetVM::FemtoContainer,
        15,
        BinaryFileLayout::RawObjectFile,
        HelperAccessVerification::Runtime,
        HelperAccessListSource::BinaryMetadata,
        true,
        true,
    );
    assert_eq!(configuration.encode(), 0x0fff);
}

#[test]
fn encode_keeps_the_low_four_bits_of_the_slot() {
    let wide = VMConfiguration::new(
        TargetVM::Rbpf,
        16 + 5,
        BinaryFileLayout::OnlyTextSection,
        HelperAccessVerification::AheadOfTime,
        HelperAccessListSource::ExecuteRequest,
        false,
        false,
    );
    assert_eq!(wide.encode(), 5 << 1);
    assert_eq!(VMConfiguration::decode(wide.encode()).suit_slot, 5);
}

#[test]
fn decode_reads_each_field_from_its_bits() {
    let decoded = VMConfiguration::decode(0b1010_1110_0101);
    assert_eq!(decoded.vm_target, TargetVM::FemtoContainer);
    assert_eq!(decoded.suit_slot, 0b0010);
    assert_eq!(decoded.binary_layout, BinaryFileLayout::RawObjectFile);
    assert_eq!(decoded.helper_access_verification, HelperAccessVerification::LoadTime);
    assert_eq!(decoded.helper_access_list_source, HelperAccessListSource::BinaryMetadata);
    assert!(!decoded.jit);
    assert!(decoded.jit_compile);
}

#[test]
fn decode_ignores_the_bits_above_the_twelfth() {
    assert_eq!(VMConfiguration::decode(0xf000), VMConfiguration::decode(0));
    assert_eq!(VMConfiguration::decode(0xffff), VMConfiguration::decode(0x0fff));
}

#[test]
fn decode_inverts_encode_for_every_configuration() {
    let targets = [TargetVM::Rbpf, TargetVM::FemtoContainer];
    let layouts = [
        BinaryFileLayout::OnlyTextSection,
        BinaryFileLayout::FemtoContainersHeader,
        BinaryFileLayout::ExtendedHeader,
        BinaryFileLayout::RawObjectFile,
    ];
    let verifications = [
        HelperAccessVerification::AheadOfTime,
        HelperAccessVerification::LoadTime,
        HelperAccessVerification::PreFlight,
        HelperAccessVerification::Runtime,
    ];
    let sources = [HelperAccessListSource::ExecuteRequest, HelperAccessListSource::BinaryMetadata];
    let mut seen = 0;
    for target in targets {
        for slot in 0..16usize {
            for layout in layouts {
                for verification in verifications {
                    for source in sources {
                        for flags in 0..4 {
                            let configuration = VMConfiguration::new(
                                target,
                                slot,
                                layout,
                                verification,
                                source,
                                flags & 1 == 1,
                                flags & 2 == 2,
                            );
                            let encoded = configuration.encode();
                            assert!(encoded < 4096);
                            assert_eq!(VMConfiguration::decode(encoded), configuration);
                            seen += 1;
                        }
                    }
                }
            }
        }
    }
    assert_eq!(seen, 4096);
}

#[test]
fn encode_inverts_decode_on_twelve_bits() {
    for encoding in 0..4096u16 {
        assert_eq!(VMConfiguration::decode(encoding).encode(), encoding);
    }
}

#[test]
fn indices_and_from_u8_agree() {
    for v in 0..2u8 {
        assert_eq!(TargetVM::from_u8(v).index(), v);
        assert_eq!(HelperAccessListSource::from_u8(v).index(), v);
    }
    for v in 0..4u8 {
        assert_eq!(BinaryFileLayout::from_u8(v).index(), v);
        assert_eq!(HelperAccessVerification::from_u8(v).index(), v);
    }
    assert_eq!(TargetVM::from_u8(1), TargetVM::FemtoContainer);
    assert_eq!(BinaryFileLayout::from_u8(2), BinaryFileLayout::ExtendedHeader);
    assert_eq!(HelperAccessVerification::from_u8(2), HelperAccessVerification::PreFlight);
    assert_eq!(HelperAccessListSource::from_u8(0), HelperAccessListSource::ExecuteRequest);
}
