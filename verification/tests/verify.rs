use hq::engine::docker::{Config, Docker};
use hq::engine::spawn::ContainerSpawner;
use hq::harness::CommandSpec;
use hq::gate::{Decision, Gate, Outcome as GateOutcome, Phase, Report};
use hq::harness::{Outcome, Role, RunHandle, SessionId, Usage};
use hq::mission::flow::{Flow, Stage, Work};
use hq::mission::{Bounds, Header, Integration, Lot, Security, Verdict, VerdictFile};
use hq::verify::{verify_step, RunRead, Step, VerifyAction, VerifyEvent, VerifyPhase, VerifyState};

fn header(bounds: Bounds) -> Header {
    Header {
        branch: "feat".to_string(),
        base: "main".to_string(),
        lots: vec![Lot { id: "L1".to_string(), title: "parse".to_string() }],
        integration: Integration::Declined { reason: "a library".to_string() },
        security: Security::Gates,
        arbiter: None,
        account: None,
        model: None,
        run: None,
        bounds,
    }
}

fn state(stage: Stage, bounds: Bounds) -> VerifyState {
    let mut flow = Flow::new(header(bounds)).expect("one lot");
    flow.stage = stage;
    VerifyState {
        id: "m1".to_string(),
        slot: "one".to_string(),
        flow,
        run: None,
        stopped: None,
        down: None,
        spared: None,
        runs: 0,
        tokens: 0,
        measure: None,
        now: 1_000_000,
        concluded: vec![],
        phase: VerifyPhase::Deciding,
        steps: vec![],
    }
}

fn coding() -> Stage {
    Stage::Coding { work: Work::Lot(0), attempt: 1 }
}

fn report(red: bool) -> Report {
    let decision = if red { Decision::Failed("the tree is dirty".to_string()) } else { Decision::Passed };
    Report { role: Role::Coder, head: "abc".to_string(), outcomes: vec![GateOutcome::of(Gate::CleanTree, decision)] }
}

fn step(s: VerifyState, e: VerifyEvent) -> (VerifyState, VerifyAction) {
    match verify_step(s, e) {
        Ok(pair) => pair,
        Err(e) => panic!("verify stopped short: {e:?}"),
    }
}

#[test]
fn green_gates_leave_the_coder_owed_its_lot() {
    let (s, a) = step(state(coding(), Bounds::default()), VerifyEvent::Look);
    assert!(matches!(a, VerifyAction::PlayGates { role: Role::Coder, phase: Phase::AfterRun }));
    let (s, a) = step(s, VerifyEvent::GatesPlayed { report: report(false), head: "abc".to_string() });
    match a {
        VerifyAction::Stop { step: Step::NeedsRun { role, why }, save } => {
            assert_eq!(role, Role::Coder);
            assert_eq!(why, "lot L1 — parse is owed a run");
            assert!(!save);
        }
        _ => panic!("the coder is owed a run"),
    }
    assert_eq!(s.phase, VerifyPhase::Done);
}

#[test]
fn red_gates_cost_an_attempt_and_say_why() {
    let (s, _) = step(state(coding(), Bounds::default()), VerifyEvent::Look);
    let (s, a) = step(s, VerifyEvent::GatesPlayed { report: report(true), head: "abc".to_string() });
    match a {
        VerifyAction::Stop { step: Step::NeedsRun { why, .. }, save } => {
            assert!(why.starts_with("the gates were red, and fixing them is a run: gate 1"));
            assert!(save);
        }
        _ => panic!("a red gate is a run owed"),
    }
    assert!(matches!(s.flow.stage, Stage::Coding { attempt: 2, .. }));
}

#[test]
fn a_held_mission_launches_nothing() {
    let mut s0 = state(coding(), Bounds::default());
    s0.stopped = Some(("ada".to_string(), "2026-01-01".to_string(), None));
    let (s, _) = step(s0, VerifyEvent::Look);
    let (_, a) = step(s, VerifyEvent::GatesPlayed { report: report(false), head: "abc".to_string() });
    assert!(matches!(a, VerifyAction::Stop { step: Step::Held { ref who, .. }, .. } if who == "ada"));
}

#[test]
fn green_final_gates_conclude_the_coder_and_launch_the_next_role() {
    let (s, a) = step(state(Stage::Gates, Bounds::default()), VerifyEvent::Look);
    assert!(matches!(a, VerifyAction::PlayGates { phase: Phase::Final, .. }));
    let (s, a) = step(s, VerifyEvent::GatesPlayed { report: report(false), head: "abc".to_string() });
    assert!(matches!(a, VerifyAction::Save { carry: None }));
    assert_eq!(s.concluded, vec![(Role::Coder, None, "abc".to_string())]);
    assert_ne!(s.flow.stage, Stage::Gates);
}

#[test]
fn an_integration_stage_without_a_run_launches_one() {
    let (_, a) = step(state(Stage::Integration { attempt: 1 }, Bounds::default()), VerifyEvent::Look);
    assert!(matches!(a, VerifyAction::Launch { role: Role::Integrator, ref lot, attempt: 1 } if lot == "integration"));
}

#[test]
fn a_mission_past_its_cap_is_held_by_the_engine() {
    let mut bounds = Bounds::default();
    bounds.max_runs = Some(3);
    let mut s0 = state(Stage::SecurityAgent { attempt: 1 }, bounds);
    s0.runs = 3;
    let (s, a) = step(s0, VerifyEvent::Look);
    match a {
        VerifyAction::Stop { step: Step::Held { role, who, reason, .. }, save } => {
            assert_eq!(role, Role::Security);
            assert_eq!(who, "hq");
            assert!(reason.unwrap().starts_with("the mission has spent 3 run(s), and its cap is 3"));
            assert!(save);
        }
        _ => panic!("past its cap, the mission is held"),
    }
    assert!(s.stopped.is_some());
}

#[test]
fn a_run_read_back_applies_its_verdict_and_counts_it() {
    let mut s0 = state(Stage::Integration { attempt: 1 }, Bounds::default());
    let handle = RunHandle { session: SessionId("s".to_string()), container: String::new(), pid: None, log: "l".to_string() };
    s0.run = Some(handle);
    let (s, a) = step(s0, VerifyEvent::Look);
    assert!(matches!(a, VerifyAction::ReadBack { role: Role::Integrator, .. }));
    let file = VerdictFile {
        role: Role::Integrator,
        verdict: Verdict::Broken,
        head: "abc".to_string(),
        date: "d".to_string(),
        report: "the API answers 500".to_string(),
    };
    let read = RunRead::Ended {
        outcome: Outcome::Finished(Usage { input_tokens: 10, output_tokens: 5 }),
        usage: Some(Usage { input_tokens: 10, output_tokens: 5 }),
        path: "/m/VERDICT.json".to_string(),
        text: Ok("{..}".to_string()),
        parsed: Ok(file),
        head: "abc".to_string(),
    };
    let (s, a) = step(s, VerifyEvent::RunRead(read));
    match a {
        VerifyAction::Save { carry: Some((role, verdict, report, head)) } => {
            assert_eq!((role, verdict, report.as_str(), head.as_str()), (Role::Integrator, Verdict::Broken, "the API answers 500", "abc"));
        }
        _ => panic!("a red verdict is carried to the coder"),
    }
    assert_eq!(s.runs, 1);
    assert_eq!(s.tokens, 15);
    assert!(s.run.is_none());
    assert_eq!(s.concluded, vec![(Role::Integrator, Some(Verdict::Broken), "abc".to_string())]);
    assert!(matches!(s.flow.stage, Stage::Coding { .. }));
}

#[test]
fn an_unreachable_run_decides_nothing() {
    let mut s0 = state(Stage::Integration { attempt: 1 }, Bounds::default());
    s0.run = Some(RunHandle { session: SessionId("s".to_string()), container: String::new(), pid: None, log: "l".to_string() });
    let (s, _) = step(s0, VerifyEvent::Look);
    let (s, a) = step(s, VerifyEvent::RunRead(RunRead::Unreachable("paused".to_string())));
    assert!(matches!(a, VerifyAction::Stop { step: Step::Unreachable { ref why, .. }, save: false } if why == "paused"));
    assert!(s.run.is_some());
    assert_eq!(s.flow.stage, Stage::Integration { attempt: 1 });
}

#[test]
fn a_spawned_run_is_one_engine_command() {
    let docker = Docker::new(Config::from_settings(None, None));
    let spawner = ContainerSpawner::new("/hq/profiles/one.yml".to_string(), "proj", "agent");
    let cmd = CommandSpec {
        program: "agent-cli".to_string(),
        args: vec!["-p".to_string()],
        cwd: "/work/tree".to_string(),
        env: vec![("K".to_string(), "V".to_string())],
    };
    let c = spawner.spawn_command(&docker, &cmd, "/runs/s1.jsonl");
    assert_eq!(c.program, "docker");
    assert_eq!(
        c.args,
        vec![
            "compose", "-p", "proj", "-f", "/hq/profiles/one.yml", "exec", "-T", "-w", "/work/tree", "-e", "K=V", "agent",
            "sh", "-c", "echo $$ > \"$0\"; exec \"$@\"", "/run/hq/s1.pid", "agent-cli", "-p",
        ]
    );
    assert_eq!(c.cwd, "/hq/profiles");
}
