use hq::harness::claude_code::{classify_result, parse_stream, state, stream_lines, Block, ClaudeCode, Config, Event};
use hq::harness::fake::FakeHarness;
use hq::harness::{Exposure, Fault, GuardSetup, Outcome, Progress, Role, RunHandle, RunRequest, RunState, SessionId, Usage, Workspace};

fn request(resume: bool) -> RunRequest {
    RunRequest {
        role: Role::Coder,
        workspace: Workspace { tree: "/work/tree".to_string(), mission_dir: "/work/mission".to_string() },
        lot: "L1".to_string(),
        attempt: 2,
        session: SessionId("s-1".to_string()),
        resume,
        runs_dir: "/hq/runs".to_string(),
    }
}

fn config() -> Config {
    Config { program: "agent".to_string(), model: None, max_turns: None, config_dir: None }
}

fn event(kind: &str) -> Event {
    Event {
        kind: Some(kind.to_string()),
        session_id: None,
        blocks: Vec::new(),
        is_error: None,
        input_tokens: None,
        output_tokens: None,
        result: None,
        api_error_status: None,
        text: String::new(),
    }
}

fn tool(name: &str, input: &str) -> Block {
    Block { kind: Some("tool_use".to_string()), name: Some(name.to_string()), input: Some(input.to_string()) }
}

const BASE: &str = "Mission folder: /work/mission. Work on lot `L1` (attempt 2). Read MISSION.md and JOURNAL.md first; write your ÉTAT DE REPRISE block in JOURNAL.md at every checkpoint and before you stop.";

#[test]
fn command_for_a_fresh_session() {
    let adapter = ClaudeCode::new(config());
    let c = adapter.command(&request(false), &GuardSetup::default(), &Exposure::SystemPromptFile("/p/coder.md".to_string()));
    assert_eq!(c.program, "agent");
    assert_eq!(c.cwd, "/work/tree");
    assert!(c.env.is_empty());
    let want: Vec<String> = vec![
        "-p", "--output-format", "stream-json", "--verbose", "--permission-mode", "dontAsk",
        "--permission-prompts", "none", "--session-id", "s-1", "--append-system-prompt-file", "/p/coder.md", BASE,
    ]
    .into_iter()
    .map(String::from)
    .collect();
    assert_eq!(c.args, want);
}

#[test]
fn command_resumes_with_model_turns_guards_and_message() {
    let adapter = ClaudeCode::new(Config {
        program: "agent".to_string(),
        model: Some("m-1".to_string()),
        max_turns: Some(40),
        config_dir: Some("/home/agent/.cfg".to_string()),
    });
    let guards = GuardSetup { args: vec!["--deny".to_string(), "push".to_string()] };
    let c = adapter.command(&request(true), &guards, &Exposure::UserMessage("Be careful.".to_string()));
    let want: Vec<String> = vec![
        "-p", "--output-format", "stream-json", "--verbose", "--permission-mode", "dontAsk",
        "--permission-prompts", "none", "--resume", "s-1", "--model", "m-1", "--max-turns", "40", "--deny", "push",
    ]
    .into_iter()
    .map(String::from)
    .collect();
    assert_eq!(&c.args[..16], &want[..]);
    assert_eq!(c.args[16], format!("Be careful.\n\n{BASE}"));
    assert_eq!(c.args.len(), 17);
    assert_eq!(c.env, vec![("CLAUDE_CONFIG_DIR".to_string(), "/home/agent/.cfg".to_string())]);
    assert!(!c.args.iter().any(|a| a == "--bare"));
}

#[test]
fn stream_lines_trims_and_skips_empty_lines() {
    assert_eq!(stream_lines("  {\"a\":1}  \n\n\t\n{\"b\":2}\r\n"), vec!["{\"a\":1}".to_string(), "{\"b\":2}".to_string()]);
    assert!(stream_lines("").is_empty());
}

#[test]
fn a_result_without_error_finishes_with_its_usage() {
    let mut e = event("result");
    e.is_error = Some(false);
    e.input_tokens = Some(120);
    e.output_tokens = Some(30);
    assert_eq!(classify_result(&e), Outcome::Finished(Usage { input_tokens: 120, output_tokens: 30 }));
    let bare = event("result");
    assert_eq!(classify_result(&bare), Outcome::Finished(Usage { input_tokens: 0, output_tokens: 0 }));
}

#[test]
fn a_quota_error_is_the_harness_failure() {
    let mut e = event("result");
    e.is_error = Some(true);
    e.result = Some("Usage limit reached: Rate Limit".to_string());
    assert_eq!(
        classify_result(&e),
        Outcome::HarnessFailure(Fault { why: "Usage limit reached: Rate Limit".to_string(), authentication: false })
    );
}

#[test]
fn a_server_status_is_the_harness_failure() {
    let mut e = event("result");
    e.is_error = Some(true);
    e.result = Some("something broke".to_string());
    e.api_error_status = Some(503);
    assert!(matches!(classify_result(&e), Outcome::HarnessFailure(f) if f.why == "something broke"));
    e.api_error_status = Some(400);
    assert_eq!(classify_result(&e), Outcome::MissionFailure("something broke".to_string()));
}

#[test]
fn an_error_without_result_text_is_reported_by_its_first_400_characters() {
    let mut e = event("result");
    e.is_error = Some(true);
    e.text = "x".repeat(500);
    assert_eq!(classify_result(&e), Outcome::MissionFailure("x".repeat(400)));
    e.text = format!("{{\"errors\":[\"NETWORK down\"]}}{}", "y".repeat(10));
    assert!(matches!(classify_result(&e), Outcome::HarnessFailure(_)));
}

#[test]
fn parse_stream_counts_calls_repeats_and_the_session() {
    let mut a = event("assistant");
    a.session_id = Some("abc".to_string());
    a.blocks = vec![tool("Bash", "{\"c\":1}"), tool("Bash", "{\"c\":1}"), Block { kind: Some("text".to_string()), name: None, input: None }];
    let mut b = event("assistant");
    b.blocks = vec![tool("Bash", "{\"c\":1}"), tool("Read", "{}")];
    let mut r = event("result");
    r.is_error = Some(false);
    r.output_tokens = Some(7);
    let parsed = parse_stream(&[Some(a), None, Some(b), Some(event("system")), Some(r)]);
    assert_eq!(parsed.progress, Progress { events: 4, tool_calls: 4, longest_repeat: 3 });
    assert_eq!(parsed.session_id, Some("abc".to_string()));
    assert_eq!(parsed.outcome, Some(Outcome::Finished(Usage { input_tokens: 0, output_tokens: 7 })));
}

#[test]
fn an_undecoded_last_line_changes_nothing() {
    let mut a = event("assistant");
    a.blocks = vec![tool("Edit", "{}")];
    let one = parse_stream(&[Some(a.clone())]);
    let two = parse_stream(&[Some(a), None]);
    assert_eq!(one, two);
    assert_eq!(one.outcome, None);
}

#[test]
fn state_follows_the_log_then_the_process() {
    let mut r = event("result");
    r.is_error = Some(false);
    let finished = parse_stream(&[Some(r)]);
    assert_eq!(state(&finished, true), RunState::Finished(Outcome::Finished(Usage::default())));
    let running = parse_stream(&[Some(event("assistant"))]);
    assert_eq!(state(&running, true), RunState::Running(Progress { events: 1, tool_calls: 0, longest_repeat: 0 }));
    assert_eq!(
        state(&running, false),
        RunState::Finished(Outcome::HarnessFailure(Fault {
            why: "the harness process ended without a result event".to_string(),
            authentication: false,
        }))
    );
}

#[test]
fn fake_harness_pops_scripted_states_and_keeps_the_last() {
    let mut h = FakeHarness::new();
    let s = SessionId("s-1".to_string());
    h.script(s.clone(), vec![RunState::Running(Progress::default()), RunState::Finished(Outcome::MissionFailure("no".to_string()))]);
    let handle = h.launch(&request(false));
    assert_eq!(handle, RunHandle {
        session: s.clone(),
        container: "fake-s-1".to_string(),
        pid: Some(1),
        log: "/work/mission/runs/s-1.jsonl".to_string(),
    });
    assert_eq!(h.state(&handle), Ok(RunState::Running(Progress::default())));
    assert_eq!(h.state(&handle), Ok(RunState::Finished(Outcome::MissionFailure("no".to_string()))));
    assert_eq!(h.state(&handle), Ok(RunState::Finished(Outcome::MissionFailure("no".to_string()))));
    assert_eq!(h.launched(), vec![request(false)]);
    h.stop(&handle);
    assert_eq!(h.stopped(), vec![s]);
}

#[test]
fn fake_harness_does_not_know_an_unscripted_session() {
    let mut h = FakeHarness::new();
    let handle = RunHandle { session: SessionId("x".to_string()), container: String::new(), pid: None, log: String::new() };
    assert!(matches!(h.state(&handle), Err(hq::harness::HarnessError::UnknownRun(s)) if s.0 == "x"));
    h.finish_with(SessionId("x".to_string()), Outcome::Finished(Usage::default()));
    assert_eq!(h.state(&handle), Ok(RunState::Finished(Outcome::Finished(Usage::default()))));
    h.script(SessionId("x".to_string()), vec![]);
    assert!(h.state(&handle).is_err());
    assert_eq!(h.expose(Role::Security, "/p.md".to_string()), Exposure::SystemPromptFile("/p.md".to_string()));
}
