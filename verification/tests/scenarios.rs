use zinnia_host::errors::HostError;
use zinnia_host::guest::{GuestInstr, OpArg};
use zinnia_host::host::{HostAction, Phase, RuntimeHost};
use zinnia_host::loader::{demo_namespace, EvalStatus, ModuleKind, NamespaceEntry, ZinniaModuleLoader};
use zinnia_host::ops::default_registry;

/// Build a host over a single-module namespace and start that module.
fn started_host(program: Vec<GuestInstr>) -> RuntimeHost {
    let entries = vec![NamespaceEntry {
        specifier: "zinnia://test-module.js".to_owned(),
        kind: ModuleKind::Script,
        program,
    }];
    let mut host = RuntimeHost::new();
    host.initialize(ZinniaModuleLoader { entries }, default_registry());
    host.start("zinnia://test-module.js");
    host
}

/// Step the host to settlement, advancing time exactly to each instant it
/// waits for; returns the instants waited for.
fn drive(host: &mut RuntimeHost) -> Vec<u64> {
    let mut waits = Vec::new();
    loop {
        match host.step() {
            HostAction::Progress => {}
            HostAction::WaitUntil(deadline) => {
                assert!(deadline > host.now);
                waits.push(deadline);
                host.advance_time(deadline);
            }
            HostAction::Done => break,
        }
    }
    waits
}

fn log_call(msg: &str) -> GuestInstr {
    GuestInstr::CallOp {
        name: "op_log".to_owned(),
        arg: OpArg::Str(msg.to_owned()),
        catch: false,
    }
}

fn sleep_call(ms: u64) -> GuestInstr {
    GuestInstr::CallOp { name: "op_sleep".to_owned(), arg: OpArg::U64(ms), catch: false }
}

fn atob_call(input: &[u8], catch: bool) -> GuestInstr {
    GuestInstr::CallOp {
        name: "op_base64_atob".to_owned(),
        arg: OpArg::Bytes(input.to_vec()),
        catch,
    }
}

#[test]
fn scenario_main_demo_logs_sleeps_logs_and_settles_ok() {
    let mut host = RuntimeHost::new();
    assert_eq!(host.phase, Phase::Created);
    host.initialize(demo_namespace(), default_registry());
    assert_eq!(host.phase, Phase::Initialized);
    host.start("zinnia://demo-module.js");
    assert_eq!(host.phase, Phase::Evaluating);

    let waits = drive(&mut host);
    assert_eq!(host.phase, Phase::SettledOk);
    assert_eq!(host.log, vec!["Good night...".to_owned(), "Good morning!".to_owned()]);
    // It suspended exactly once, for the fixed duration.
    assert_eq!(waits, vec![1000]);
    assert!(host.record.is_some());
    assert!(matches!(host.record.as_ref().unwrap().status, EvalStatus::Completed));
}

#[test]
fn scenario_unknown_specifier_settles_not_found_without_side_effects() {
    let mut host = RuntimeHost::new();
    host.initialize(demo_namespace(), default_registry());
    host.start("unknown://missing");
    assert_eq!(host.phase, Phase::SettledErr(HostError::NotFound));
    // No bootstrapping or evaluating side effects were observed.
    assert!(host.log.is_empty());
    assert!(host.record.is_none());
    assert!(host.pending.is_empty());
    assert_eq!(host.step(), HostAction::Done);
}

#[test]
fn scenario_dynamic_import_settles_unsupported_operation() {
    // Regardless of the import's target string — even one that would
    // otherwise resolve — and at any point in the module.
    let targets = ["zinnia://test-module.js", "unknown://missing", ""];
    for target in targets {
        let program = vec![
            log_call("before"),
            GuestInstr::DynImport { target: target.to_owned() },
            log_call("after"),
        ];
        let mut host = started_host(program);
        drive(&mut host);
        assert_eq!(host.phase, Phase::SettledErr(HostError::UnsupportedOperation));
        assert_eq!(host.log, vec!["before".to_owned()]);
        assert!(matches!(host.record.as_ref().unwrap().status, EvalStatus::Failed));
    }
}

#[test]
fn scenario_caught_decode_error_lets_the_guest_continue() {
    let program = vec![
        log_call("start"),
        atob_call(b"!!!", true),
        log_call("recovered"),
    ];
    let mut host = started_host(program);
    drive(&mut host);
    // The guest recovered, so the run still settles Ok.
    assert_eq!(host.phase, Phase::SettledOk);
    assert_eq!(host.log, vec!["start".to_owned(), "recovered".to_owned()]);
}

#[test]
fn uncaught_decode_error_settles_the_run() {
    let program = vec![atob_call(b"!!!", false), log_call("unreached")];
    let mut host = started_host(program);
    drive(&mut host);
    assert_eq!(host.phase, Phase::SettledErr(HostError::DecodeError));
    assert!(host.log.is_empty());
}

#[test]
fn valid_decode_op_call_continues() {
    let program = vec![atob_call(b"aGVsbG8=", false), log_call("done")];
    let mut host = started_host(program);
    drive(&mut host);
    assert_eq!(host.phase, Phase::SettledOk);
    assert_eq!(host.log, vec!["done".to_owned()]);
}

#[test]
fn sleep_does_not_resume_before_the_deadline() {
    let program = vec![sleep_call(500), log_call("woke")];
    let mut host = started_host(program);
    assert_eq!(host.step(), HostAction::Progress); // executes the sleep call
    assert_eq!(host.step(), HostAction::WaitUntil(500));
    assert!(host.log.is_empty());
    host.advance_time(250);
    assert_eq!(host.step(), HostAction::WaitUntil(500));
    assert!(host.log.is_empty());
    host.advance_time(500);
    assert_eq!(host.step(), HostAction::Progress); // resumes the call site
    let waits = drive(&mut host);
    assert!(waits.is_empty());
    assert_eq!(host.phase, Phase::SettledOk);
    assert_eq!(host.log, vec!["woke".to_owned()]);
}

#[test]
fn sleep_deadline_is_relative_to_the_current_instant() {
    let program = vec![sleep_call(100), sleep_call(50)];
    let mut host = started_host(program);
    let waits = drive(&mut host);
    assert_eq!(waits, vec![100, 150]);
    assert_eq!(host.phase, Phase::SettledOk);
    assert_eq!(host.now, 150);
}

#[test]
fn sleep_of_zero_resumes_immediately() {
    let program = vec![sleep_call(0), log_call("woke")];
    let mut host = started_host(program);
    let waits = drive(&mut host);
    assert!(waits.is_empty());
    assert_eq!(host.phase, Phase::SettledOk);
    assert_eq!(host.log, vec!["woke".to_owned()]);
}

#[test]
fn log_lines_appear_in_invocation_order() {
    let program = vec![log_call("one"), log_call("two"), log_call("three")];
    let mut host = started_host(program);
    drive(&mut host);
    assert_eq!(host.phase, Phase::SettledOk);
    assert_eq!(host.log, vec!["one".to_owned(), "two".to_owned(), "three".to_owned()]);
}

#[test]
fn empty_program_settles_ok() {
    let mut host = started_host(Vec::new());
    drive(&mut host);
    assert_eq!(host.phase, Phase::SettledOk);
    assert!(host.log.is_empty());
}

#[test]
fn uncaught_throw_settles_evaluation_error() {
    let program = vec![log_call("first"), GuestInstr::Throw];
    let mut host = started_host(program);
    drive(&mut host);
    assert_eq!(host.phase, Phase::SettledErr(HostError::EvaluationError));
    assert_eq!(host.log, vec!["first".to_owned()]);
}

#[test]
fn unknown_op_uncaught_settles_evaluation_error() {
    let program = vec![GuestInstr::CallOp {
        name: "op_missing".to_owned(),
        arg: OpArg::Unit,
        catch: false,
    }];
    let mut host = started_host(program);
    drive(&mut host);
    assert_eq!(host.phase, Phase::SettledErr(HostError::EvaluationError));
}

#[test]
fn unknown_op_caught_lets_the_guest_continue() {
    let program = vec![
        GuestInstr::CallOp { name: "op_missing".to_owned(), arg: OpArg::Unit, catch: true },
        log_call("still here"),
    ];
    let mut host = started_host(program);
    drive(&mut host);
    assert_eq!(host.phase, Phase::SettledOk);
    assert_eq!(host.log, vec!["still here".to_owned()]);
}

#[test]
fn schema_mismatch_is_a_decode_error() {
    // A u64 handed to the string-typed logging op fails to decode against
    // the declared schema and never executes the op body.
    let caught = vec![
        GuestInstr::CallOp { name: "op_log".to_owned(), arg: OpArg::U64(5), catch: true },
        log_call("ok"),
    ];
    let mut host = started_host(caught);
    drive(&mut host);
    assert_eq!(host.phase, Phase::SettledOk);
    assert_eq!(host.log, vec!["ok".to_owned()]);

    let uncaught = vec![GuestInstr::CallOp {
        name: "op_sleep".to_owned(),
        arg: OpArg::Str("soon".to_owned()),
        catch: false,
    }];
    let mut host = started_host(uncaught);
    drive(&mut host);
    assert_eq!(host.phase, Phase::SettledErr(HostError::DecodeError));
}

#[test]
fn missing_baseline_op_is_a_fatal_bootstrap_error() {
    let mut host = RuntimeHost::new();
    // An empty registry lacks the baseline capability surface.
    let empty_registry = zinnia_host::ops::OpRegistry { ops: Vec::new() };
    host.initialize(demo_namespace(), empty_registry);
    host.start("zinnia://demo-module.js");
    assert_eq!(host.phase, Phase::SettledErr(HostError::FatalBootstrapError));
    assert!(host.log.is_empty());
    assert_eq!(host.step(), HostAction::Done);
}

#[test]
fn both_demo_modules_run_to_completion() {
    for specifier in ["zinnia://demo-module.js", "zinnia://demo-module-rs.js"] {
        let mut host = RuntimeHost::new();
        host.initialize(demo_namespace(), default_registry());
        host.start(specifier);
        drive(&mut host);
        assert_eq!(host.phase, Phase::SettledOk);
        assert_eq!(host.log, vec!["Good night...".to_owned(), "Good morning!".to_owned()]);
    }
}
