use diameter_loadgen::options::{Global, Options, Protocol};
use diameter_loadgen::runner::{simulate_dispatch, RunParameter};

fn options_with_rate(call_rate: u32, duration_ms: u64) -> Options {
    Options {
        parallel: 1,
        call_rate,
        call_timeout: 2000,
        duration: duration_ms,
        log_requests: false,
        log_responses: false,
        protocol: Protocol::Diameter,
        globals: Global { variables: vec![] },
        dictionaries: vec![],
        scenarios: vec![],
    }
}

#[test]
fn test_load_calculate() {
    let options = options_with_rate(500, 120_000);

    let param = RunParameter::new(&options);

    assert_eq!(param.batch_size, 2);
    assert_eq!(param.interval as f64 / 1_000_000_000.0, 0.004);
    assert_eq!(param.total_requests, 60_000);
    assert_eq!(param.total_iterations, 30_000);
}

#[test]
fn rate_parameter_table() {
    let options = options_with_rate(20_000, 60_000);

    let param = RunParameter::new(&options);

    assert_eq!(param.target_tps, 20_000);
    assert_eq!(param.batch_size, 100);
    assert_eq!(param.interval, 5_000_000);
    assert_eq!(param.total_requests, 1_200_000);
    assert_eq!(param.total_iterations, 12_000);
}

#[test]
fn low_rate_floors_at_one() {
    let options = options_with_rate(1, 1_000);

    let param = RunParameter::new(&options);

    assert_eq!(param.target_tps, 1);
    assert_eq!(param.batch_size, 1);
    assert_eq!(param.interval, 1_000_000_000);
    assert_eq!(param.total_requests, 1);
    assert_eq!(param.total_iterations, 1);
}

#[test]
fn dispatcher_chain_alternates() {
    let trace = simulate_dispatch(2, 1, 3);
    assert_eq!(vec![0usize, 1, 0, 1, 0, 1], trace);
}

#[test]
fn dispatcher_chain_batches() {
    let trace = simulate_dispatch(3, 2, 1);
    assert_eq!(vec![0usize, 0, 1, 1, 2, 2], trace);
}
