use hq::backoff::{after, due, wait_minutes, HarnessDown, Next};
use hq::gate::{compile, has_heading, names, outside_of, resume_block, tail};
use hq::harness::{Fault, Outcome, Usage};
use hq::mission::flow::{Event, Flow, FlowError, Handover, Stage, Work};
use hq::mission::journal::{judge, lot_line, parse, LotLine};
use hq::mission::{Bounds, Header, Integration, Lot, Security};
use hq::secrets::{accept, forget, read, Accepted, SecretError, HEADER};

fn header(lots: &[&str], attempts: u32, volets: u32) -> Header {
    let mut bounds = Bounds::default();
    bounds.attempts_per_lot = attempts;
    bounds.max_volets = volets;
    Header {
        branch: "feat".to_string(),
        base: "main".to_string(),
        lots: lots.iter().map(|l| Lot { id: l.to_string(), title: format!("lot {l}") }).collect(),
        integration: Integration::Declined { reason: "none".to_string() },
        security: Security::Gates,
        arbiter: None,
        account: None,
        model: None,
        run: None,
        bounds,
    }
}

fn finished() -> Outcome {
    Outcome::Finished(Usage::default())
}

#[test]
fn a_mission_needs_a_lot() {
    assert_eq!(Flow::new(header(&[], 3, 3)).unwrap_err(), FlowError::NoLots);
}

#[test]
fn lots_then_gates_then_verified() {
    let mut f = Flow::new(header(&["L1", "L2"], 3, 3)).unwrap();
    assert_eq!(f.stage(), &Stage::Coding { work: Work::Lot(0), attempt: 1 });
    assert_eq!(f.advance(Event::RunEnded { outcome: finished(), lot_done: true }).unwrap(), Stage::Coding { work: Work::Lot(1), attempt: 1 });
    assert_eq!(f.advance(Event::RunEnded { outcome: finished(), lot_done: true }).unwrap(), Stage::Gates);
    assert_eq!(f.advance(Event::GatesPassed).unwrap(), Stage::Verified);
    let before = f.clone();
    assert!(f.advance(Event::GatesPassed).is_err());
    assert_eq!(f, before);
}

#[test]
fn a_harness_failure_replays_the_same_attempt() {
    let mut f = Flow::new(header(&["L1"], 3, 3)).unwrap();
    let fault = Fault::transient("quota".to_string());
    assert_eq!(f.advance(Event::RunEnded { outcome: Outcome::HarnessFailure(fault), lot_done: false }).unwrap(), Stage::Coding { work: Work::Lot(0), attempt: 1 });
}

#[test]
fn attempts_are_bounded_and_a_retry_resumes() {
    let mut f = Flow::new(header(&["L1"], 2, 3)).unwrap();
    assert_eq!(f.advance(Event::Stalled { reason: "no progress".to_string() }).unwrap(), Stage::Coding { work: Work::Lot(0), attempt: 2 });
    assert_eq!(
        f.advance(Event::RunEnded { outcome: Outcome::MissionFailure("stopped".to_string()), lot_done: false }).unwrap(),
        Stage::AwaitingHuman(Handover::LotAttemptsExhausted { lot: "L1".to_string(), attempts: 2 })
    );
    assert_eq!(f.advance(Event::Retried { because: "fixed the fixture".to_string() }).unwrap(), Stage::Coding { work: Work::Lot(0), attempt: 1 });
}

#[test]
fn volets_are_bounded() {
    let mut f = Flow::new(header(&["L1"], 3, 1)).unwrap();
    f.advance(Event::RunEnded { outcome: finished(), lot_done: true }).unwrap();
    assert_eq!(f.advance(Event::GatesFailed { reason: "battery".to_string() }).unwrap(), Stage::Coding { work: Work::Volet { n: 1, cause: "gate: battery".to_string() }, attempt: 1 });
    assert_eq!(f.volets(), 1);
    f.advance(Event::RunEnded { outcome: finished(), lot_done: true }).unwrap();
    assert!(matches!(f.advance(Event::GatesFailed { reason: "battery".to_string() }).unwrap(), Stage::AwaitingHuman(Handover::VoletsExhausted { .. })));
}

#[test]
fn a_mission_called_off_stays_off() {
    let mut f = Flow::new(header(&["L1"], 3, 3)).unwrap();
    assert_eq!(f.advance(Event::Ended { reason: "changed plans".to_string() }).unwrap(), Stage::AwaitingHuman(Handover::Abandoned { reason: "changed plans".to_string() }));
    assert_eq!(f.advance(Event::Retried { because: "back".to_string() }).unwrap_err(), FlowError::CalledOff("changed plans".to_string()));
    assert_eq!(f.advance(Event::Ended { reason: "again".to_string() }).unwrap_err(), FlowError::AlreadyOver);
}

#[test]
fn rulings_are_read_one_per_line() {
    let text = "# comment\n\nabc123  a test key\nbare\n  def  fixture only  \n";
    let r = read(text);
    assert_eq!(r.len(), 2);
    assert_eq!((r[0].id.as_str(), r[0].because.as_str()), ("abc123", "a test key"));
    assert_eq!((r[1].id.as_str(), r[1].because.as_str()), ("def", "fixture only"));
}

#[test]
fn an_accepted_secret_reads_back() {
    let (how, body) = accept(None, " abc123 ", " a test key ").unwrap();
    assert_eq!(how, Accepted::Added);
    assert_eq!(body, format!("{}abc123  a test key\n", HEADER));
    let r = read(&body);
    assert_eq!(r.len(), 1);
    assert_eq!(r[0].because, "a test key");
    let (how, again) = accept(Some(&body), "abc123", "rotated").unwrap();
    assert_eq!(how, Accepted::Replaced("a test key".to_string()));
    let r = read(&again);
    assert_eq!(r.len(), 1);
    assert_eq!(r[0].because, "rotated");
}

#[test]
fn a_forgotten_secret_is_gone() {
    let (_, body) = accept(None, "abc", "why").unwrap();
    let (dropped, rest) = forget(Some(&body), "abc");
    assert!(dropped);
    assert!(read(&rest.unwrap()).is_empty());
    assert_eq!(forget(Some("x  y\n"), "abc"), (false, None));
    assert_eq!(forget(None, "abc"), (false, None));
}

#[test]
fn a_ruling_is_refused_for_each_reason() {
    assert!(matches!(accept(None, "  ", "why"), Err(SecretError::EmptyId)));
    let e = accept(None, "a b", "why").unwrap_err();
    assert_eq!(e.message(), "the id \"a b\" holds a space, and a ruling is one line of id then reason: nothing would tell them apart");
    assert!(matches!(accept(None, "a", " "), Err(SecretError::EmptyReason)));
    assert!(matches!(accept(None, "a", "one\ntwo"), Err(SecretError::ReasonIsNotALine)));
}

#[test]
fn a_lot_line_reads_the_grammar() {
    assert_eq!(parse("Lot: L2 — done"), Some(LotLine::Done { lot: "L2".to_string() }));
    assert_eq!(parse("- lot: `volet-1` - Done."), Some(LotLine::Done { lot: "volet-1".to_string() }));
    assert_eq!(parse("Lot: L2 — failed: the test X does not pass"), Some(LotLine::Failed { lot: "L2".to_string(), reason: "the test X does not pass".to_string() }));
    assert_eq!(parse("Lot: L2 — failedish"), None);
    assert_eq!(parse("Lot: volet-1"), None);
}

#[test]
fn the_journal_is_judged_on_its_resume_block_only() {
    let journal = "# Journal\n\n## ÉTAT DE REPRISE\n\nAt abc1234.\nLot: L2 — done\n\n## History\n\nLot: L1 — done\n";
    assert_eq!(lot_line(journal), Some(LotLine::Done { lot: "L2".to_string() }));
    assert_eq!(judge(journal, "L2"), Ok(()));
    assert_eq!(judge(journal, "L1"), Err("the resume block reports lot L2, and this run was lot L1".to_string()));
    assert_eq!(
        judge("# Journal\n", "L1"),
        Err("the resume block carries no `Lot: L1 — done` line: a run that does not say its lot is done has not finished it".to_string())
    );
    let failed = "## ÉTAT DE REPRISE\nLot: L1 — failed\n";
    assert_eq!(judge(failed, "L1"), Err("the run said lot L1 failed, without saying why".to_string()));
}

#[test]
fn the_resume_block_ends_at_the_next_heading_of_its_level() {
    let text = "# J\n## ÉTAT DE REPRISE\nhead 0123456789abcdef\n### detail\nx\n## Next\ny\n";
    assert_eq!(resume_block(text), Some("## ÉTAT DE REPRISE\nhead 0123456789abcdef\n### detail\nx\n"));
    assert!(names(resume_block(text).unwrap(), "0123456789abcdef0123"));
    assert!(!names("short 0123456 only", "0123457aaaa"));
    assert!(names("short 0123456 only", "0123456aaaa"));
    assert_eq!(resume_block("no block"), None);
    assert!(has_heading("intro\n## Summary\n", "summary"));
}

#[test]
fn protected_patterns_match_through_globset() {
    let set = compile(&["src/vendor/**".to_string(), "*.lock".to_string()]).unwrap();
    let out = outside_of(&set, &["src/vendor/a.rs".to_string(), "src/vendor".to_string(), "Cargo.lock".to_string(), "src/main.rs".to_string()]);
    assert_eq!(out, vec!["src/main.rs".to_string()]);
    assert!(compile(&["a[".to_string()]).is_err());
}

#[test]
fn tail_prefers_standard_error() {
    assert_eq!(tail("", ""), "");
    assert_eq!(tail("boom", "ok"), "boom");
    assert_eq!(tail("  ", "a\nb"), "a\nb");
}

#[test]
fn waits_double_up_to_an_hour() {
    let got: Vec<u64> = (1..=8).map(wait_minutes).collect();
    assert_eq!(got, vec![2, 4, 8, 16, 32, 60, 60, 60]);
    assert_eq!(wait_minutes(0), 2);
}

#[test]
fn a_failure_waits_then_holds_past_the_ceiling() {
    let fault = Fault::transient("quota".to_string());
    let (first, next) = after(None, &fault, 1000, 6);
    assert_eq!(first, HarnessDown { failures: 1, since: 1000, not_before: 1120, last: "quota".to_string() });
    assert_eq!(next, Next::Wait { until: 1120 });
    assert!(!due(Some(&first), 1119));
    assert!(due(Some(&first), 1120));
    assert!(due(None, 0));
    let (_, held) = after(Some(&first), &fault, 1000 + 6 * 3600, 6);
    assert!(matches!(held, Next::Human { .. }));
    let auth = Fault { why: "401".to_string(), authentication: true };
    assert!(matches!(after(None, &auth, 0, 6).1, Next::Human { .. }));
}
