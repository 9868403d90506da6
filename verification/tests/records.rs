use hq::consumption::percent;
use hq::findings::{reason, who, FindingsError};
use hq::followup::{appended, ended, retried, said};
use hq::gesture::{said as instruction, target, GestureError};
use hq::lifecycle::{end_reason, finished, retry_reason, what_stopped, LifecycleError};
use hq::logs::{logs_in, most_recent};
use hq::mission::flow::{Handover, Stage, Work};
use hq::provider::guard_name;

#[test]
fn followup_blocks_are_dated_and_addressed() {
    assert_eq!(
        ended("2026-01-02", "Ada", "changed plans"),
        "## 2026-01-02 — Ada called this mission off\n\n**Because:** changed plans\n\nNothing here is deleted. `nunki mission archive` moves this folder\nunder `archive/`, and what it holds is the record of what was done.\n"
    );
    assert_eq!(
        said("2026-01-02", "Ada", "Use the fixture."),
        "## 2026-01-02 — Ada left an instruction for the next run\n\nUse the fixture.\n"
    );
    assert_eq!(
        retried("2026-01-02", "Ada", "the fixture is fixed", "L1 failed 3 attempt(s)"),
        "## 2026-01-02 — Ada took this mission back\n\nIt had stopped on its own bounds: L1 failed 3 attempt(s). They are handed back whole, and this is what changed since:\n\nthe fixture is fixed\n\nRead it before the journal. Nothing in the tree moved on its own.\n"
    );
}

#[test]
fn one_blank_line_between_blocks() {
    assert_eq!(appended("", "B\n"), "B\n");
    assert_eq!(appended("A\n\n", "B\n"), "A\n\nB\n");
    assert_eq!(appended("A\n", "B\n"), "A\n\nB\n");
    assert_eq!(appended("A", "B\n"), "A\n\nB\n");
}

#[test]
fn a_handover_in_one_clause() {
    assert_eq!(what_stopped(&Handover::LotAttemptsExhausted { lot: "L1".to_string(), attempts: 3 }), "L1 failed 3 attempt(s)");
    assert_eq!(what_stopped(&Handover::VoletsExhausted { causes: vec!["a".to_string(), "b".to_string()] }), "2 return(s) to the coder were used");
    assert_eq!(what_stopped(&Handover::Abandoned { reason: "no".to_string() }), "it was called off (no)");
    assert_eq!(what_stopped(&Handover::RoleAttemptsExhausted { role: hq::harness::Role::Integrator, attempts: 2 }), "the Integrator failed 2 attempt(s)");
}

#[test]
fn ending_and_retrying_need_a_reason() {
    assert_eq!(end_reason("  because  ").unwrap(), "because");
    assert!(matches!(end_reason("   "), Err(LifecycleError::NoReason)));
    assert!(matches!(retry_reason(""), Err(LifecycleError::NoChange)));
    assert!(finished(&Stage::Verified));
    assert!(finished(&Stage::AwaitingHuman(Handover::Abandoned { reason: "x".to_string() })));
    assert!(!finished(&Stage::Coding { work: Work::Lot(0), attempt: 1 }));
}

#[test]
fn a_lift_needs_a_reason_and_somebody() {
    assert!(matches!(reason(" "), Err(FindingsError::NoReason)));
    assert_eq!(reason(" ok ").unwrap(), "ok");
    assert!(matches!(who(None), Err(FindingsError::NoHuman)));
}

#[test]
fn a_gesture_needs_a_run_and_words() {
    assert!(matches!(target("m1", false, false), Err(GestureError::NotStarted(id)) if id == "m1"));
    assert!(matches!(target("m1", true, false), Err(GestureError::NoRun(id)) if id == "m1"));
    assert!(target("m1", true, true).is_ok());
    assert!(matches!(instruction("  "), Err(GestureError::NothingSaid)));
}

#[test]
fn logs_are_the_jsonl_files_in_order() {
    let names = vec!["b.jsonl".to_string(), "a.jsonl".to_string(), "a.jsonl.err".to_string(), "notes.txt".to_string()];
    assert_eq!(logs_in(&names), vec!["a.jsonl".to_string(), "b.jsonl".to_string()]);
    let seen = vec![
        ("m1".to_string(), "2026-01-01T00:00:00Z".to_string()),
        ("m2".to_string(), "2026-03-01T00:00:00Z".to_string()),
        ("m3".to_string(), "2026-02-01T00:00:00Z".to_string()),
    ];
    assert_eq!(most_recent(&seen), Some("m2".to_string()));
    assert_eq!(most_recent(&[]), None);
}

#[test]
fn thousandths_read_as_percents() {
    assert_eq!(percent(530), "53");
    assert_eq!(percent(905), "90.5");
    assert_eq!(percent(0), "0");
}

#[test]
fn a_provider_guard_is_named_safely() {
    assert_eq!(guard_name("pay.example.com"), "provider-pay.example.com");
    assert_eq!(guard_name("a b/c"), "provider-a_b_c");
}
