use diameter_loadgen::avp::{AddressForm, AvpType, AvpValue};
use diameter_loadgen::errors::ConfigError;
use diameter_loadgen::errors::ConvertFault;
use diameter_loadgen::global::{Global as Registry, IncCounter};
use diameter_loadgen::options;
use diameter_loadgen::scenario;

#[test]
fn unsigned32_parses_exactly() {
    let v = scenario::string_to_avp_value("42", AvpType::Unsigned32).unwrap();
    assert!(matches!(v, AvpValue::Unsigned32(42)));
}

#[test]
fn unsigned64_parses_exactly() {
    let v = scenario::string_to_avp_value("18446744073709551615", AvpType::Unsigned64).unwrap();
    assert!(matches!(v, AvpValue::Unsigned64(18446744073709551615)));
}

#[test]
fn enumerated_parses_negative() {
    let v = scenario::string_to_avp_value("-5", AvpType::Enumerated).unwrap();
    assert!(matches!(v, AvpValue::Enumerated(-5)));
}

#[test]
fn bad_integer_is_reported() {
    let e = scenario::string_to_avp_value("abc", AvpType::Unsigned32).unwrap_err();
    assert_eq!(ConvertFault::BadInteger, e);
}

#[test]
fn overflowing_integer_is_reported() {
    let e = scenario::string_to_avp_value("4294967296", AvpType::Unsigned32).unwrap_err();
    assert_eq!(ConvertFault::BadInteger, e);
}

#[test]
fn ipv4_literal_parses() {
    let v = scenario::string_to_avp_value("192.168.0.1", AvpType::AddressIPv4).unwrap();
    assert!(matches!(v, AvpValue::AddressIPv4((192, 168, 0, 1))));
}

#[test]
fn ipv4_rejects_leading_zero_and_range() {
    assert_eq!(
        ConvertFault::BadIpv4,
        scenario::string_to_avp_value("192.168.00.1", AvpType::AddressIPv4).unwrap_err()
    );
    assert_eq!(
        ConvertFault::BadIpv4,
        scenario::string_to_avp_value("1.2.3.999", AvpType::AddressIPv4).unwrap_err()
    );
}

#[test]
fn ipv6_literal_parses() {
    let v = scenario::string_to_avp_value("2001:db8::1", AvpType::AddressIPv6).unwrap();
    match v {
        AvpValue::AddressIPv6(groups) => {
            assert_eq!(vec![0x2001u16, 0xdb8, 0, 0, 0, 0, 0, 1], groups);
        }
        _ => panic!("wrong variant"),
    }
}

#[test]
fn ipv6_compressed_forms_parse() {
    let v = scenario::string_to_avp_value("::", AvpType::AddressIPv6).unwrap();
    match v {
        AvpValue::AddressIPv6(groups) => assert_eq!(vec![0u16; 8], groups),
        _ => panic!("wrong variant"),
    }
    let e = scenario::string_to_avp_value("1:::2", AvpType::AddressIPv6).unwrap_err();
    assert_eq!(ConvertFault::BadIpv6, e);
}

#[test]
fn address_routes_by_family() {
    let v4 = scenario::string_to_avp_value("10.0.0.7", AvpType::Address).unwrap();
    assert!(matches!(
        v4,
        AvpValue::Address(AddressForm::V4((10, 0, 0, 7)))
    ));
    let v6 = scenario::string_to_avp_value("fe80::1", AvpType::Address).unwrap();
    assert!(matches!(v6, AvpValue::Address(AddressForm::V6(_))));
    let bad = scenario::string_to_avp_value("neither", AvpType::Address).unwrap_err();
    assert_eq!(ConvertFault::BadAddress, bad);
}

#[test]
fn octet_string_carries_bytes() {
    let v = scenario::string_to_avp_value("hi", AvpType::OctetString).unwrap();
    match v {
        AvpValue::OctetString(bytes) => assert_eq!(b"hi".to_vec(), bytes),
        _ => panic!("wrong variant"),
    }
}

#[test]
fn identity_passes_through() {
    let v = scenario::string_to_avp_value("host.example.com", AvpType::Identity).unwrap();
    match v {
        AvpValue::Identity(s) => assert_eq!("host.example.com", s),
        _ => panic!("wrong variant"),
    }
}

#[test]
fn time_parses_epoch_seconds() {
    let v = scenario::string_to_avp_value("1700000000", AvpType::Time).unwrap();
    assert!(matches!(v, AvpValue::Time(1700000000)));
}

#[test]
fn grouped_scalar_and_unknown_are_reported() {
    assert_eq!(
        ConvertFault::GroupedScalar,
        scenario::string_to_avp_value("x", AvpType::Grouped).unwrap_err()
    );
    assert_eq!(
        ConvertFault::UnknownType,
        scenario::string_to_avp_value("x", AvpType::Unknown).unwrap_err()
    );
}

#[test]
fn negative_counter_bounds_emit_signed_values() {
    let mut counter = IncCounter::new(&options::Variable {
        func: options::Function::IncrementalCounter,
        min: -2,
        max: 0,
        step: 1,
    });
    assert_eq!("-2", counter.get());
    assert_eq!("-1", counter.get());
    assert_eq!("0", counter.get());
    assert_eq!("-2", counter.get());
}

#[test]
fn registry_rejects_bad_configurations() {
    let dup = options::Global {
        variables: vec![vec![
            (
                "A".to_string(),
                options::Variable {
                    func: options::Function::IncrementalCounter,
                    min: 0,
                    max: 1,
                    step: 1,
                },
            ),
            (
                "A".to_string(),
                options::Variable {
                    func: options::Function::IncrementalCounter,
                    min: 0,
                    max: 1,
                    step: 1,
                },
            ),
        ]],
    };
    assert!(matches!(
        Registry::new(&dup),
        Err(ConfigError::DuplicateVariable { .. })
    ));

    let bad_range = options::Global {
        variables: vec![vec![(
            "B".to_string(),
            options::Variable {
                func: options::Function::IncrementalCounter,
                min: 5,
                max: 1,
                step: 1,
            },
        )]],
    };
    assert!(matches!(
        Registry::new(&bad_range),
        Err(ConfigError::InvalidRange { .. })
    ));

    let bad_step = options::Global {
        variables: vec![vec![(
            "C".to_string(),
            options::Variable {
                func: options::Function::IncrementalCounter,
                min: 0,
                max: 1,
                step: 0,
            },
        )]],
    };
    assert!(matches!(
        Registry::new(&bad_step),
        Err(ConfigError::InvalidRange { .. })
    ));

    let unsupported = options::Global {
        variables: vec![vec![(
            "D".to_string(),
            options::Variable {
                func: options::Function::CustomScript,
                min: 0,
                max: 1,
                step: 1,
            },
        )]],
    };
    assert!(matches!(
        Registry::new(&unsupported),
        Err(ConfigError::UnsupportedKind { .. })
    ));
}

#[test]
fn ipv6_embedded_ipv4_parses() {
    let v = scenario::string_to_avp_value("::ffff:192.168.0.1", AvpType::AddressIPv6).unwrap();
    match v {
        AvpValue::AddressIPv6(g) => {
            assert_eq!(vec![0u16, 0, 0, 0, 0, 0xffff, 0xc0a8, 0x0001], g)
        }
        _ => panic!("wrong variant"),
    }
    let v2 = scenario::string_to_avp_value("1:2:3:4:5:6:7.8.9.10", AvpType::AddressIPv6).unwrap();
    match v2 {
        AvpValue::AddressIPv6(g) => {
            assert_eq!(vec![1u16, 2, 3, 4, 5, 6, 0x0708, 0x090a], g)
        }
        _ => panic!("wrong variant"),
    }
    let bad = scenario::string_to_avp_value("1:2:3:4:5:6:7:7.8.9.10", AvpType::AddressIPv6);
    assert!(bad.is_err());
}

