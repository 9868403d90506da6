use hq::engine::docker::{read_liveness, Config as EngineConfig, Docker, STOP_TIMEOUT_SECONDS};
use hq::engine::Liveness;
use hq::mission::flow::{Stage, Work};
use hq::mission::{Bounds, Header, Integration, Lot, Security};
use hq::monitor::{is_monitor, logfile, may_start, next_wake, pid_in, pidfile};
use hq::push::{fetch_refusal, may_push, PushError};
use hq::run::{branch_start, first_lot, images_present, not_started, profile_path, stack_of, RunError};
use hq::state::lock::lock_path;
use hq::verify::{role_of, what_is_owed};

fn header() -> Header {
    Header {
        branch: "feat".to_string(),
        base: "main".to_string(),
        lots: vec![Lot { id: "L1".to_string(), title: "parser".to_string() }],
        integration: Integration::Declined { reason: "none".to_string() },
        security: Security::Gates,
        arbiter: None,
        account: None,
        model: None,
        run: None,
        bounds: Bounds::default(),
    }
}

#[test]
fn a_monitor_files_its_pid_and_log_by_mission() {
    assert_eq!(pidfile("/h/hq", "m1"), "/h/hq/monitors/m1.pid");
    assert_eq!(logfile("/h/hq", "m1"), "/h/hq/monitors/m1.log");
    assert!(is_monitor("/usr/bin/hq mission monitor m1", "m1"));
    assert!(!is_monitor("/usr/bin/hq mission monitor m10", "m1"));
    assert!(!is_monitor("vim m1", "m1"));
    assert_eq!(pid_in(" 4242\n"), Some(4242));
    assert_eq!(pid_in("x"), None);
}

#[test]
fn a_monitor_wakes_at_the_latest_of_what_it_waits_for() {
    assert_eq!(next_wake(1000, true, Some(5000), Some(9000)), 1060);
    assert_eq!(next_wake(1000, false, None, None), 1060);
    assert_eq!(next_wake(1000, false, Some(5000), Some(3000)), 5000);
    assert_eq!(next_wake(1000, false, Some(10), Some(3000)), 3000);
}

#[test]
fn only_the_hq_binary_starts_a_monitor() {
    assert!(may_start("/usr/local/bin/hq").is_ok());
    assert!(may_start("/tmp/deps/hq-1234").is_err());
}

#[test]
fn run_plans_name_their_files_and_defaults() {
    assert_eq!(profile_path("/h/hq", "s1"), "/h/hq/profiles/s1.yml");
    assert_eq!(branch_start("main", true), "main");
    assert_eq!(branch_start("main", false), "origin/main");
    assert!(matches!(not_started("m1", true), Err(RunError::AlreadyStarted(id)) if id == "m1"));
    assert!(not_started("m1", false).is_ok());
    assert_eq!(stack_of(&vec![]), "rust");
    assert_eq!(stack_of(&vec!["node".to_string()]), "node");
    assert_eq!(first_lot(&header()), "L1");
    assert!(images_present(&[("a".to_string(), true)]).is_ok());
    assert!(matches!(
        images_present(&[("a".to_string(), true), ("b".to_string(), false), ("c".to_string(), false)]),
        Err(RunError::NoImages(n)) if n == "b"
    ));
    assert_eq!(lock_path("/h/hq/locks", "s1"), "/h/hq/locks/s1.lock");
}

#[test]
fn a_push_is_authorised_and_verified_first() {
    assert!(matches!(may_push("m1", false, Some(Stage::Verified)), Err(PushError::NotAuthorised(m)) if m == "m1"));
    assert!(matches!(may_push("m1", true, None), Err(PushError::NotStarted(_))));
    assert!(matches!(may_push("m1", true, Some(Stage::Gates)), Err(PushError::NotVerified { .. })));
    assert!(may_push("m1", true, Some(Stage::Verified)).is_ok());
    assert!(matches!(fetch_refusal("feat", "feat"), Err(PushError::FetchingIntoCurrent(b)) if b == "feat"));
    assert!(fetch_refusal("main", "feat").is_ok());
}

#[test]
fn the_stage_says_whose_turn_it_is() {
    assert_eq!(role_of(&Stage::Integration { attempt: 1 }), hq::harness::Role::Integrator);
    assert_eq!(role_of(&Stage::SecurityAgent { attempt: 1 }), hq::harness::Role::Security);
    assert_eq!(role_of(&Stage::Gates), hq::harness::Role::Coder);
    assert_eq!(what_is_owed(&Work::Lot(0), &header()), "lot L1 — parser is owed a run");
    assert_eq!(what_is_owed(&Work::Lot(4), &header()), "a lot is owed a run");
    assert_eq!(what_is_owed(&Work::Volet { n: 2, cause: "gate: battery".to_string() }, &header()), "volet 2 is owed a run: gate: battery");
}

#[test]
fn the_engine_is_configured_from_the_settings() {
    let c = EngineConfig::from_settings(None, None);
    assert_eq!(c.compose, vec!["docker".to_string(), "compose".to_string()]);
    assert_eq!(c.engine, "docker");
    assert_eq!(c.stop_timeout, STOP_TIMEOUT_SECONDS);
    let p = EngineConfig::from_settings(Some("podman-compose"), Some("podman"));
    assert_eq!(p.compose, vec!["podman-compose".to_string()]);
    let d = Docker::new(c);
    assert_eq!(d.stop_args(&["agent".to_string()]), vec!["stop".to_string(), "--timeout".to_string(), "20".to_string(), "agent".to_string()]);
    assert_eq!(d.down_args(true), vec!["down".to_string(), "--timeout".to_string(), "20".to_string(), "--volumes".to_string()]);
}

#[test]
fn liveness_is_read_from_the_engine_answer() {
    assert_eq!(read_liveness(false, "").unwrap(), Liveness::Gone);
    assert_eq!(read_liveness(true, "true false 0\n").unwrap(), Liveness::Running);
    assert_eq!(read_liveness(true, "true true 0").unwrap(), Liveness::Paused);
    assert_eq!(read_liveness(true, "false false 137").unwrap(), Liveness::Exited(137));
    assert!(read_liveness(true, "garbage").is_err());
}

#[test]
fn a_session_identifier_has_the_shape_of_a_uuid() {
    assert_eq!(hq::run::session_id(0), "00000000-0000-4000-8000-000000000000");
    assert_eq!(hq::run::session_id(u128::MAX), "ffffffff-ffff-4fff-8fff-ffffffffffff");
    assert_eq!(hq::run::session_id(0x0123456789abcdef0123456789abcdef), "01234567-89ab-4def-8123-456789abcdef");
}
