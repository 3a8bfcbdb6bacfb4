use diameter_loadgen::message_generator::AvpVariableValue;

#[test]
fn test_variable() {
    let mut variable = AvpVariableValue::new("ses;${COUNTER}");

    assert_eq!("ses;1", variable.execute());
    assert_eq!("ses;2", variable.execute());
    assert_eq!("ses;3", variable.execute());
}

#[test]
fn constant_source_keeps_its_text() {
    let variable = AvpVariableValue::new("example.origin.host");
    assert_eq!(0, variable.functions.len());
    assert_eq!("example.origin.host", variable.source);
}
