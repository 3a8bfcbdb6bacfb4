use diameter::dictionary::Dictionary;
use diameter_loadgen::avp::AvpType;
use diameter_loadgen::errors::ValueError;
use diameter_loadgen::global::Global;
use diameter_loadgen::options;
use diameter_loadgen::scenario::{Scenario, Value};

fn counter_global() -> Global {
    let variables = vec![vec![(
        "COUNTER".to_string(),
        options::Variable {
            func: options::Function::IncrementalCounter,
            min: 1,
            max: 5,
            step: 3,
        },
    )]];
    Global::new(&options::Global { variables }).unwrap()
}

#[test]
fn scenario_test_constant() {
    let dict = Dictionary::new(&vec![]);

    let mut global = counter_global();

    let variable = Value::new(
        &options::Value::String("example.origin.host".into()),
        AvpType::UTF8String,
        &mut global,
        &dict,
    )
    .unwrap();

    assert_eq!("example.origin.host", variable.compute(&mut global));
    assert_eq!("example.origin.host", variable.compute(&mut global));
    assert_eq!("example.origin.host", variable.compute(&mut global));
}

#[test]
fn scenario_test_counter_variable() {
    let dict = Dictionary::new(&vec![]);

    let mut global = counter_global();

    let variable = Value::new(
        &options::Value::String("ses;${COUNTER}".into()),
        AvpType::UTF8String,
        &mut global,
        &dict,
    )
    .unwrap();

    assert_eq!("ses;1", variable.compute(&mut global));
    assert_eq!("ses;4", variable.compute(&mut global));
    assert_eq!("ses;1", variable.compute(&mut global));
}

#[test]
fn scenario_test_2_counters_variable() {
    let dict = Dictionary::new(&vec![]);

    let variables = vec![
        vec![(
            "COUNTER1".to_string(),
            options::Variable {
                func: options::Function::IncrementalCounter,
                min: 0,
                max: 5,
                step: 1,
            },
        )],
        vec![(
            "COUNTER2".to_string(),
            options::Variable {
                func: options::Function::IncrementalCounter,
                min: 1,
                max: 5,
                step: 3,
            },
        )],
    ];
    let mut global = Global::new(&options::Global { variables }).unwrap();

    let variable = Value::new(
        &options::Value::String("ses;${COUNTER1}_${COUNTER2}".into()),
        AvpType::UTF8String,
        &mut global,
        &dict,
    )
    .unwrap();

    assert_eq!("ses;0_1", variable.compute(&mut global));
    assert_eq!("ses;1_4", variable.compute(&mut global));
    assert_eq!("ses;2_1", variable.compute(&mut global));
}

#[test]
fn scalar_for_grouped_type_is_rejected() {
    let dict = Dictionary::new(&vec![]);
    let mut global = counter_global();
    let err = Value::new(
        &options::Value::String("plain".into()),
        AvpType::Grouped,
        &mut global,
        &dict,
    );
    assert!(matches!(err, Err(ValueError::BadConstant { .. })));
}

#[test]
fn nested_list_for_scalar_type_is_rejected() {
    let dict = Dictionary::new(&vec![]);
    let mut global = counter_global();
    let err = Value::new(
        &options::Value::Avp(vec![]),
        AvpType::UTF8String,
        &mut global,
        &dict,
    );
    assert!(matches!(err, Err(ValueError::TypeMismatch)));
}

#[test]
fn bad_constant_is_rejected() {
    let dict = Dictionary::new(&vec![]);
    let mut global = counter_global();
    let err = Value::new(
        &options::Value::String("not-a-number".into()),
        AvpType::Unsigned32,
        &mut global,
        &dict,
    );
    assert!(matches!(err, Err(ValueError::BadConstant { .. })));
}

#[test]
fn scenario_resolves_against_default_dictionary() {
    let dict = Dictionary::new(&[&diameter::dictionary::DEFAULT_DICT_XML]);
    let mut global = counter_global();

    let config = options::Scenario {
        name: "CCR".to_string(),
        scenario_type: options::ScenarioType::Repeating,
        message: options::Message {
            command: "Credit-Control".to_string(),
            application: "Charging Control".to_string(),
            avps: vec![
                options::Avp {
                    name: "Origin-Host".to_string(),
                    value: options::Value::String("host.example.com".to_string()),
                },
                options::Avp {
                    name: "Origin-Realm".to_string(),
                    value: options::Value::String("realm.example.com".to_string()),
                },
            ],
        },
    };

    let mut scenario = Scenario::new(&config, &mut global, &dict).unwrap();
    assert_eq!("CCR", scenario.get_name());
    assert_eq!(272, scenario.message.command_code);
    assert_eq!(4, scenario.message.application_id);
    assert_eq!(264, scenario.message.avps[0].code);
    assert_eq!(296, scenario.message.avps[1].code);

    let first = scenario.next_message(&mut global).unwrap();
    let second = scenario.next_message(&mut global).unwrap();
    assert_eq!(1, first.hop_by_hop);
    assert_eq!(1, first.end_to_end);
    assert_eq!(2, second.hop_by_hop);
    assert!(second.hop_by_hop > first.hop_by_hop);
    assert_eq!(272, first.command_code);
    assert_eq!(0x80, first.flags);
    assert_eq!(2, first.avps.len());
}

#[test]
fn unknown_command_is_rejected() {
    let dict = Dictionary::new(&vec![]);
    let mut global = counter_global();
    let config = options::Scenario {
        name: "bad".to_string(),
        scenario_type: options::ScenarioType::Init,
        message: options::Message {
            command: "No-Such-Command".to_string(),
            application: "Common".to_string(),
            avps: vec![],
        },
    };
    let err = Scenario::new(&config, &mut global, &dict);
    assert!(matches!(
        err,
        Err(diameter_loadgen::errors::ConfigError::UnknownCommand { .. })
    ));
}

#[test]
fn grouped_value_builds_members_in_order() {
    let dict = Dictionary::new(&[&diameter::dictionary::DEFAULT_DICT_XML]);
    let mut global = counter_global();

    let v = Value::new(
        &options::Value::Avp(vec![
            options::Avp {
                name: "Origin-Host".to_string(),
                value: options::Value::String("host.example.com".to_string()),
            },
            options::Avp {
                name: "Origin-Realm".to_string(),
                value: options::Value::String("r;${COUNTER}".to_string()),
            },
        ]),
        AvpType::Grouped,
        &mut global,
        &dict,
    )
    .unwrap();

    match &v.constant {
        Some(diameter_loadgen::avp::AvpValue::Grouped(items)) => {
            assert_eq!(2, items.len());
            assert_eq!(264, items[0].code);
            assert_eq!(296, items[1].code);
            match &items[1].value {
                diameter_loadgen::avp::AvpValue::Identity(text) => assert_eq!("r;1", text),
                _ => panic!("wrong member variant"),
            }
        }
        _ => panic!("expected a grouped constant"),
    }
}

#[test]
fn grouped_child_with_unknown_name_is_rejected() {
    let dict = Dictionary::new(&[&diameter::dictionary::DEFAULT_DICT_XML]);
    let mut global = counter_global();
    let err = Value::new(
        &options::Value::Avp(vec![options::Avp {
            name: "No-Such-Avp".to_string(),
            value: options::Value::String("x".to_string()),
        }]),
        AvpType::Grouped,
        &mut global,
        &dict,
    );
    assert!(matches!(err, Err(ValueError::UnknownAvp { .. })));
}

