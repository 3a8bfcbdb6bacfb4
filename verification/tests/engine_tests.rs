use diameter::dictionary::Dictionary;
use diameter_loadgen::avp::AvpValue;
use diameter_loadgen::generator;
use diameter_loadgen::global::Global;
use diameter_loadgen::message_generator;
use diameter_loadgen::options;

fn ccr_scenario() -> options::Scenario {
    options::Scenario {
        name: "CCR-I".to_string(),
        scenario_type: options::ScenarioType::Repeating,
        message: options::Message {
            command: "Credit-Control".to_string(),
            application: "Charging Control".to_string(),
            avps: vec![
                options::Avp {
                    name: "Session-Id".to_string(),
                    value: options::Value::String("ses;${COUNTER}".to_string()),
                },
                options::Avp {
                    name: "Origin-Host".to_string(),
                    value: options::Value::String("host.example.com".to_string()),
                },
            ],
        },
    }
}

#[test]
fn generator_builds_fresh_messages() {
    let dict = Dictionary::new(&[&diameter::dictionary::DEFAULT_DICT_XML]);
    let variables = vec![vec![(
        "COUNTER".to_string(),
        options::Variable {
            func: options::Function::IncrementalCounter,
            min: 1,
            max: 5,
            step: 3,
        },
    )]];
    let mut global = Global::new(&options::Global { variables }).unwrap();

    let mut gen = generator::MessageGenerator::new(&ccr_scenario(), &global, &dict).unwrap();
    assert_eq!(272, gen.command_code);
    assert_eq!(4, gen.application_id);
    assert_eq!(0x80, gen.flags);

    let first = gen.message(&mut global).unwrap();
    let second = gen.message(&mut global).unwrap();
    assert_eq!(1, first.hop_by_hop);
    assert_eq!(2, second.hop_by_hop);
    assert_eq!(263, first.avps[0].code);
    match &first.avps[0].value {
        AvpValue::UTF8String(s) => assert_eq!("ses;1", s),
        _ => panic!("wrong variant"),
    }
    match &second.avps[0].value {
        AvpValue::UTF8String(s) => assert_eq!("ses;4", s),
        _ => panic!("wrong variant"),
    }
    match &first.avps[1].value {
        AvpValue::Identity(s) => assert_eq!("host.example.com", s),
        _ => panic!("wrong variant"),
    }
}

#[test]
fn counter_engine_builds_fresh_messages() {
    let dict = Dictionary::new(&[&diameter::dictionary::DEFAULT_DICT_XML]);

    let mut gen = message_generator::MessageGenerator::new(&ccr_scenario(), &dict).unwrap();
    assert_eq!(272, gen.command_code);
    assert_eq!(4, gen.application_id);

    let first = gen.message();
    let second = gen.message();
    assert_eq!(1, first.hop_by_hop);
    assert_eq!(2, second.hop_by_hop);
    match &first.avps[0].value {
        AvpValue::UTF8String(s) => assert_eq!("ses;1", s),
        _ => panic!("wrong variant"),
    }
    match &second.avps[0].value {
        AvpValue::UTF8String(s) => assert_eq!("ses;2", s),
        _ => panic!("wrong variant"),
    }
}
