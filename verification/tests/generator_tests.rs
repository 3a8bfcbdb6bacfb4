use diameter_loadgen::generator::VariableGenerator;
use diameter_loadgen::global::{Global, IncCounter};
use diameter_loadgen::options;

fn counter_registry(entries: Vec<(&str, i32, i32, i32)>) -> Global {
    let variables = vec![entries
        .into_iter()
        .map(|(name, min, max, step)| {
            (
                name.to_string(),
                options::Variable {
                    func: options::Function::IncrementalCounter,
                    min,
                    max,
                    step,
                },
            )
        })
        .collect()];
    Global::new(&options::Global { variables }).unwrap()
}

#[test]
fn generator_test_constant() {
    let global = counter_registry(vec![("COUNTER", 1, 5, 3)]);
    let mut global = global;

    let variable = VariableGenerator::new("example.origin.host", &global).unwrap();

    assert_eq!("example.origin.host", variable.compute(&mut global));
    assert_eq!("example.origin.host", variable.compute(&mut global));
    assert_eq!("example.origin.host", variable.compute(&mut global));
}

#[test]
fn generator_test_counter_variable() {
    let mut global = counter_registry(vec![("COUNTER", 1, 5, 3)]);

    let variable = VariableGenerator::new("ses;${COUNTER}", &global).unwrap();

    assert_eq!("ses;1", variable.compute(&mut global));
    assert_eq!("ses;4", variable.compute(&mut global));
    assert_eq!("ses;1", variable.compute(&mut global));
}

#[test]
fn generator_test_2_counters_variable() {
    let mut global = counter_registry(vec![("COUNTER1", 0, 5, 1), ("COUNTER2", 1, 5, 3)]);

    let variable = VariableGenerator::new("ses;${COUNTER1}_${COUNTER2}", &global).unwrap();

    assert_eq!("ses;0_1", variable.compute(&mut global));
    assert_eq!("ses;1_4", variable.compute(&mut global));
    assert_eq!("ses;2_1", variable.compute(&mut global));
}

#[test]
fn counter_wrap_emits_five_values() {
    let mut counter = IncCounter::new(&options::Variable {
        func: options::Function::IncrementalCounter,
        min: 1,
        max: 5,
        step: 3,
    });
    let emitted: Vec<String> = (0..5).map(|_| counter.get()).collect();
    assert_eq!(vec!["1", "4", "1", "4", "1"], emitted);
}

#[test]
fn unknown_variable_is_rejected() {
    let global = counter_registry(vec![("COUNTER", 1, 5, 3)]);
    let err = VariableGenerator::new("ses;${MISSING}", &global);
    assert!(matches!(
        err,
        Err(diameter_loadgen::errors::ValueError::UnknownVariable { .. })
    ));
}

#[test]
fn repeated_reference_advances_once() {
    let mut global = counter_registry(vec![("COUNTER", 1, 100, 1)]);
    let variable = VariableGenerator::new("${COUNTER}-${COUNTER}", &global).unwrap();
    assert_eq!("1-1", variable.compute(&mut global));
    assert_eq!("2-2", variable.compute(&mut global));
}

#[test]
fn random_draw_stays_in_range() {
    let variables = vec![vec![(
        "R".to_string(),
        options::Variable {
            func: options::Function::RandomNumber,
            min: 7,
            max: 7,
            step: 1,
        },
    )]];
    let mut global = Global::new(&options::Global { variables }).unwrap();
    let variable = VariableGenerator::new("x${R}", &global).unwrap();
    assert_eq!("x7", variable.compute(&mut global));
}
