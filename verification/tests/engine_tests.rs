use loadcore::controller::RunConfiguration;
use loadcore::controller::RunOutcome;
use loadcore::engine::execute_run;
use loadcore::metrics::Method;
use loadcore::runner::ResponseData;
use loadcore::runner::Validation;
use loadcore::scenario::Scenario;
use loadcore::scenario::Transaction;
use loadcore::scenario::WeightedTransaction;

fn base_config() -> RunConfiguration {
    RunConfiguration {
        base_url: b"http://target.example/".to_vec(),
        users: 10,
        ramp_per_tick: 10,
        duration_ticks: 5,
        iteration_cap: None,
        think_time_min: 0,
        think_time_max: 0,
        request_timeout: 1000,
        grace_period: 2,
        error_rate_threshold: None,
        seed: 42,
    }
}

fn one_transaction_scenario(expected_status: u16) -> Scenario {
    Scenario {
        name: String::from("HomePage"),
        transactions: vec![WeightedTransaction {
            transaction: Transaction {
                name: String::from("loadtest_index"),
                method: Method::Get,
                path: String::from(""),
                validation: Validation {
                    expected_status: Some(expected_status),
                    required_text: None,
                    required_header: None,
                },
                once_at_start: false,
            },
            weight: 1,
        }],
    }
}

fn ok_response() -> ResponseData {
    ResponseData {
        transport_ok: true,
        status: 200,
        body: b"<html>benwis</html>".to_vec(),
        headers: vec![b"content-type".to_vec()],
        elapsed: 12,
    }
}

fn server_error_response() -> ResponseData {
    ResponseData {
        transport_ok: true,
        status: 500,
        body: b"oops".to_vec(),
        headers: vec![],
        elapsed: 12,
    }
}

#[test]
fn ten_users_five_ticks_all_ok_exits_zero() {
    let cfg = base_config();
    let scenario = one_transaction_scenario(200);
    let script = vec![ok_response()];
    let r = execute_run(&cfg, &scenario, &script);
    assert_eq!(r.outcome, RunOutcome::Completed);
    assert_eq!(r.exit, 0);
    assert!(!r.report.incomplete);
    // all 10 users are active from tick 0, one transaction each per tick
    assert_eq!(r.requests_issued, 50);
    assert_eq!(r.failures, 0);
    assert_eq!(r.report.stats.len(), 1);
    assert_eq!(r.report.stats[0].success, 50);
    assert!(r.report.stats[0].success > 0);
    assert_eq!(r.report.stats[0].validation_failure, 0);
    assert_eq!(r.report.stats[0].transport_error, 0);
    assert_eq!(r.report.stats[0].timeout, 0);
    assert_eq!(r.report.stats[0].count, 50);
}

#[test]
fn validation_failures_still_exit_zero_without_threshold() {
    let mut cfg = base_config();
    cfg.users = 5;
    cfg.ramp_per_tick = 5;
    let scenario = one_transaction_scenario(200);
    let script = vec![server_error_response()];
    let r = execute_run(&cfg, &scenario, &script);
    // every metric is a validation failure, yet the run completes normally
    assert_eq!(r.outcome, RunOutcome::Completed);
    assert_eq!(r.exit, 0);
    assert!(!r.report.incomplete);
    assert_eq!(r.report.stats[0].success, 0);
    assert_eq!(r.report.stats[0].validation_failure, r.requests_issued);
    assert_eq!(r.failures, r.requests_issued);
}

#[test]
fn validation_failures_with_breached_threshold_exit_nonzero() {
    let mut cfg = base_config();
    cfg.users = 5;
    cfg.ramp_per_tick = 5;
    cfg.error_rate_threshold = Some(50);
    let scenario = one_transaction_scenario(200);
    let script = vec![server_error_response()];
    let r = execute_run(&cfg, &scenario, &script);
    assert_eq!(r.outcome, RunOutcome::AbortedOnErrorRate);
    assert_ne!(r.exit, 0);
    assert!(r.report.incomplete);
}

#[test]
fn eighty_percent_failures_abort_early_at_fifty_percent_threshold() {
    let mut cfg = base_config();
    cfg.error_rate_threshold = Some(50);
    let scenario = one_transaction_scenario(200);
    // four failing responses for every passing one: an 80 % failure rate
    let script = vec![
        server_error_response(),
        server_error_response(),
        server_error_response(),
        server_error_response(),
        ok_response(),
    ];
    let r = execute_run(&cfg, &scenario, &script);
    assert_eq!(r.outcome, RunOutcome::AbortedOnErrorRate);
    assert_ne!(r.exit, 0);
    assert!(r.report.incomplete);
    // aborted early: well before the 50 scheduled requests
    assert!(r.requests_issued < 50);
    assert!(r.failures * 100 > 50 * r.requests_issued);
}

#[test]
fn invalid_configuration_exits_two() {
    let mut cfg = base_config();
    cfg.users = 0;
    let scenario = one_transaction_scenario(200);
    let script = vec![ok_response()];
    let r = execute_run(&cfg, &scenario, &script);
    assert_eq!(r.outcome, RunOutcome::InvalidConfiguration);
    assert_eq!(r.exit, 2);
    assert_eq!(r.requests_issued, 0);
}

#[test]
fn ramp_up_spreads_requests_over_ticks() {
    let mut cfg = base_config();
    cfg.users = 10;
    cfg.ramp_per_tick = 2;
    cfg.duration_ticks = 5;
    let scenario = one_transaction_scenario(200);
    let script = vec![ok_response()];
    let r = execute_run(&cfg, &scenario, &script);
    // active users per tick: 2, 4, 6, 8, 10
    assert_eq!(r.requests_issued, 30);
    assert_eq!(r.report.stats[0].success, 30);
}

#[test]
fn iteration_cap_limits_each_user() {
    let mut cfg = base_config();
    cfg.users = 3;
    cfg.ramp_per_tick = 3;
    cfg.duration_ticks = 10;
    cfg.iteration_cap = Some(4);
    let scenario = one_transaction_scenario(200);
    let script = vec![ok_response()];
    let r = execute_run(&cfg, &scenario, &script);
    // each of the 3 users stops after its 4 transactions
    assert_eq!(r.requests_issued, 12);
    assert_eq!(r.outcome, RunOutcome::Completed);
}

#[test]
fn startup_transactions_run_once_per_user() {
    let mut cfg = base_config();
    cfg.users = 4;
    cfg.ramp_per_tick = 2;
    cfg.duration_ticks = 3;
    let scenario = Scenario {
        name: String::from("HomePage"),
        transactions: vec![
            WeightedTransaction {
                transaction: Transaction {
                    name: String::from("login"),
                    method: Method::Get,
                    path: String::from("login"),
                    validation: Validation {
                        expected_status: Some(200),
                        required_text: None,
                        required_header: None,
                    },
                    once_at_start: true,
                },
                weight: 0,
            },
            WeightedTransaction {
                transaction: Transaction {
                    name: String::from("loadtest_index"),
                    method: Method::Get,
                    path: String::from(""),
                    validation: Validation {
                        expected_status: Some(200),
                        required_text: None,
                        required_header: None,
                    },
                    once_at_start: false,
                },
                weight: 1,
            },
        ],
    };
    let script = vec![ok_response()];
    let r = execute_run(&cfg, &scenario, &script);
    assert_eq!(r.outcome, RunOutcome::Completed);
    // the run-once transaction fires once per started user (4 users), the
    // weighted one once per active user per tick (2 + 4 + 4)
    assert_eq!(r.report.stats[0].count, 4);
    assert_eq!(r.report.stats[1].count, 10);
    assert_eq!(r.requests_issued, 14);
    assert_eq!(r.failures, 0);
}

#[test]
fn runs_are_reproducible_from_their_seed() {
    let cfg = base_config();
    let scenario = one_transaction_scenario(200);
    let script = vec![ok_response(), server_error_response()];
    let a = execute_run(&cfg, &scenario, &script);
    let b = execute_run(&cfg, &scenario, &script);
    assert_eq!(a.requests_issued, b.requests_issued);
    assert_eq!(a.failures, b.failures);
    assert_eq!(a.exit, b.exit);
    assert_eq!(a.report.stats[0].count, b.report.stats[0].count);
    assert_eq!(a.report.stats[0].hist, b.report.stats[0].hist);
}

#[test]
fn transport_errors_are_distinguished_from_validation_failures() {
    let mut cfg = base_config();
    cfg.users = 1;
    cfg.ramp_per_tick = 1;
    cfg.duration_ticks = 2;
    let scenario = one_transaction_scenario(200);
    let down = ResponseData {
        transport_ok: false,
        status: 0,
        body: vec![],
        headers: vec![],
        elapsed: 0,
    };
    let script = vec![down];
    let r = execute_run(&cfg, &scenario, &script);
    assert_eq!(r.report.stats[0].transport_error, 2);
    assert_eq!(r.report.stats[0].validation_failure, 0);
    assert_eq!(r.report.stats[0].success, 0);
}

#[test]
fn slow_responses_count_as_timeouts() {
    let mut cfg = base_config();
    cfg.users = 1;
    cfg.ramp_per_tick = 1;
    cfg.duration_ticks = 1;
    cfg.request_timeout = 100;
    let scenario = one_transaction_scenario(200);
    let slow = ResponseData {
        transport_ok: true,
        status: 200,
        body: vec![],
        headers: vec![],
        elapsed: 101,
    };
    let script = vec![slow];
    let r = execute_run(&cfg, &scenario, &script);
    assert_eq!(r.report.stats[0].timeout, 1);
    assert_eq!(r.failures, 1);
}
