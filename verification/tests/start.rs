use hq::account::{Account, AccountError, Accounts};
use hq::check::{forge_protection, rules_are_reachable, run, Check, Readings, Report, RulesFile, Verdict};
use hq::compose::UserIds;
use hq::followup::appended;
use hq::harness::RunHandle;
use hq::harness::SessionId;
use hq::human::{Human, Source};
use hq::mission::{Bounds, Header, Integration, Lot, Security};
use hq::project::{Config, ForgeProtection, Project, ProtectedPaths};
use hq::run::{start_step, RunError, StartAction, StartContext, StartEvent, StartPhase, StartState};

fn config(by_hand: bool) -> Config {
    Config {
        root: None,
        harness: "h".to_string(),
        forge: vec!["github.com".to_string()],
        stacks: vec!["rust".to_string()],
        protected_branches: vec!["main".to_string(), "dev".to_string()],
        protected_paths: ProtectedPaths::default(),
        account: None,
        model: None,
        permission_mode: "auto".to_string(),
        bounds: Bounds::default(),
        credentials: None,
        run: None,
        services_file: None,
        forge_protection: if by_hand { ForgeProtection::ByHand } else { ForgeProtection::Forge },
    }
}

fn project() -> Project {
    Project::at("/src/shop".to_string(), config(false), "/home/me/.nunki/abc".to_string())
}

fn header(lots: usize) -> Header {
    Header {
        branch: "feat".to_string(),
        base: "main".to_string(),
        lots: (0..lots).map(|i| Lot { id: format!("L{}", i + 1), title: "work".to_string() }).collect(),
        integration: Integration::Declined { reason: "a library".to_string() },
        security: Security::Gates,
        arbiter: None,
        account: None,
        model: None,
        run: None,
        bounds: Bounds::default(),
    }
}

fn context() -> StartContext {
    StartContext {
        project: project(),
        id: "m1".to_string(),
        slot: "one".to_string(),
        tree: "/slots/one".to_string(),
        version: "0.1.0".to_string(),
        user: UserIds { uid: 1000, gid: 1000 },
        harness_domains: vec!["api.example.com".to_string()],
        token_env: "TOKEN".to_string(),
        harness_dir: "/home/agent/.h".to_string(),
        stack_domains: vec!["crates.io".to_string()],
        ip_hosts: vec![],
        session: "0123456789abcdef".to_string(),
        run_session: "run-1".to_string(),
    }
}

fn accounts(harness: &str) -> Accounts {
    Accounts {
        accounts: vec![(
            "work".to_string(),
            Account { harness: harness.to_string(), token_file: "accounts/work".to_string(), note: None },
        )],
        default: None,
    }
}

fn step(s: StartState, e: StartEvent) -> (StartState, StartAction) {
    match start_step(s, e) {
        Ok(pair) => pair,
        Err(e) => panic!("the start stopped: {e:?}"),
    }
}

/// Drive a start up to the image check.
fn up_to_images() -> StartState {
    let (s, a) = StartState::begin(context()).expect("the session names a project");
    assert!(matches!(a, StartAction::ReadState));
    let (s, a) = step(s, StartEvent::StateRead(false));
    assert!(matches!(a, StartAction::Lock { ref slot } if slot == "one"));
    let (s, a) = step(s, StartEvent::Locked(Ok(())));
    assert!(matches!(a, StartAction::ReadHeader { ref id } if id == "m1"));
    let (s, a) = step(s, StartEvent::HeaderRead(Ok(header(1))));
    assert!(matches!(a, StartAction::ReadAccounts));
    let (s, a) = step(s, StartEvent::AccountsRead(Ok(accounts("h"))));
    assert!(matches!(a, StartAction::ReadToken { ref path } if path == "/home/me/.nunki/accounts/work"));
    let (s, a) = step(s, StartEvent::TokenRead(" secret \n".to_string()));
    match a {
        StartAction::CheckImages { names } => {
            assert_eq!(names, vec!["nunki/shop-rust:latest".to_string(), "nunki/firewall:0.1.0".to_string()])
        }
        _ => panic!("images are looked for after the account"),
    }
    assert_eq!(s.phase, StartPhase::Checking);
    s
}

#[test]
fn a_started_mission_is_refused_before_anything() {
    let (s, _) = StartState::begin(context()).unwrap();
    assert!(matches!(start_step(s, StartEvent::StateRead(true)), Err(RunError::AlreadyStarted(id)) if id == "m1"));
}

#[test]
fn an_account_for_another_harness_stops_before_the_images() {
    let (s, _) = StartState::begin(context()).unwrap();
    let (s, _) = step(s, StartEvent::StateRead(false));
    let (s, _) = step(s, StartEvent::Locked(Ok(())));
    let (s, _) = step(s, StartEvent::HeaderRead(Ok(header(1))));
    match start_step(s, StartEvent::AccountsRead(Ok(accounts("other")))) {
        Err(RunError::WrongHarness { account, has, wants }) => {
            assert_eq!((account.as_str(), has.as_str(), wants.as_str()), ("work", "other", "h"))
        }
        _ => panic!("a wrong harness is refused"),
    }
}

#[test]
fn an_empty_token_is_an_account_error() {
    let (s, _) = StartState::begin(context()).unwrap();
    let (s, _) = step(s, StartEvent::StateRead(false));
    let (s, _) = step(s, StartEvent::Locked(Ok(())));
    let (s, _) = step(s, StartEvent::HeaderRead(Ok(header(1))));
    let (s, _) = step(s, StartEvent::AccountsRead(Ok(accounts("h"))));
    assert!(matches!(start_step(s, StartEvent::TokenRead("  ".to_string())), Err(RunError::Account(AccountError::NoToken { .. }))));
}

#[test]
fn a_missing_image_stops_before_the_branch() {
    let s = up_to_images();
    assert!(matches!(start_step(s, StartEvent::ImagesChecked(vec![true, false])), Err(RunError::NoImages(n)) if n == "nunki/firewall:0.1.0"));
}

#[test]
fn a_start_runs_in_its_order_to_the_saved_state() {
    let s = up_to_images();
    let (s, a) = step(s, StartEvent::ImagesChecked(vec![true, true]));
    assert!(matches!(a, StartAction::ReadBranch { ref tree, ref base } if tree == "/slots/one" && base == "main"));
    let (s, a) = step(s, StartEvent::BranchRead { current: Ok("main".to_string()), base_local: false });
    match a {
        StartAction::Checkout { tree, args } => {
            assert_eq!(tree, "/slots/one");
            assert_eq!(args, vec!["checkout", "-q", "-B", "feat", "origin/main"]);
        }
        _ => panic!("a tree on another branch is checked out"),
    }
    let (s, a) = step(s, StartEvent::CheckedOut(Ok(())));
    assert!(matches!(a, StartAction::WritePrompt { ref path, .. } if path == "/home/me/.nunki/abc/hq/missions/m1/ROLE.md"));
    let (s, a) = step(s, StartEvent::Written(Ok(())));
    match &a {
        StartAction::WriteProfile { path, plan } => {
            assert_eq!(path, "/home/me/.nunki/abc/hq/profiles/one.yml");
            assert_eq!(plan.image, "nunki/shop-rust:latest");
            assert!(plan.environment.contains(&("TOKEN".to_string(), "secret".to_string())));
            assert!(plan.environment.contains(&("HQ_BRANCH".to_string(), "feat".to_string())));
            assert!(plan.credentials.is_empty());
        }
        _ => panic!("the profile follows the prompt"),
    }
    let (s, a) = step(s, StartEvent::Written(Ok(())));
    assert!(matches!(a, StartAction::Up { ref project, .. } if project == "nunki-01234567-one"));
    let (s, a) = step(s, StartEvent::Up(Ok(())));
    match &a {
        StartAction::Launch { request, .. } => {
            assert_eq!(request.session.0, "run-1");
            assert_eq!(request.lot, "L1");
            assert_eq!(request.attempt, 1);
        }
        _ => panic!("the launch follows the profile"),
    }
    let handle = RunHandle { session: SessionId("run-1".to_string()), container: String::new(), pid: Some(7), log: "l".to_string() };
    let (s, a) = step(s, StartEvent::Launched(Ok(handle)));
    match &a {
        StartAction::Save { state } => {
            assert_eq!(state.id, "m1");
            assert_eq!(state.run.as_ref().and_then(|r| r.pid), Some(7));
        }
        _ => panic!("the state is saved last"),
    }
    let (s, a) = step(s, StartEvent::Saved(Ok(())));
    assert!(matches!(a, StartAction::Started));
    assert_eq!(s.phase, StartPhase::Done);
}

#[test]
fn a_tree_on_its_branch_is_not_checked_out() {
    let s = up_to_images();
    let (s, _) = step(s, StartEvent::ImagesChecked(vec![true, true]));
    let (_, a) = step(s, StartEvent::BranchRead { current: Ok("feat".to_string()), base_local: true });
    assert!(matches!(a, StartAction::WritePrompt { .. }));
}

#[test]
fn forge_protection_by_hand_reads_nothing() {
    let mut report = Report::default();
    let branches = vec!["main".to_string(), "dev".to_string()];
    let read_on = forge_protection(true, &branches, &mut report);
    assert!(!read_on);
    assert_eq!(report.checks.len(), 2);
    assert_eq!(report.checks[0].what, "main is protected on the forge");
    assert_eq!(report.checks[1].what, "dev is protected on the forge");
    assert!(report.checks.iter().all(|c| matches!(c.verdict, Verdict::NotChecked(_))));
    let mut other = Report::default();
    assert!(forge_protection(false, &branches, &mut other));
    assert!(other.checks.is_empty());
}

fn readings(listed: Result<Vec<String>, String>, stacks: usize) -> Readings {
    Readings {
        dot_git: "/src/shop/.git".to_string(),
        dot_git_exists: true,
        resolved_root: "/src/shop".to_string(),
        macos: false,
        listed,
        attributes: "/src/shop/.gitattributes".to_string(),
        attributes_text: Some("* text=auto eol=lf".to_string()),
        hq_root: "/home/me/.nunki/abc/hq".to_string(),
        hq_is_dir: true,
        harness: "h".to_string(),
        known: vec!["h".to_string()],
        agents: "/src/shop/AGENTS.md".to_string(),
        agents_is_file: true,
        harness_rules: Some("/src/shop/HARNESS.md".to_string()),
        rules_found: RulesFile::Text("@AGENTS.md\n".to_string()),
        accounts: Ok(accounts("h")),
        nunki_home: "/home/me/.nunki".to_string(),
        named: None,
        root: "/src/shop".to_string(),
        token_text: "t".to_string(),
        mode: Some(0o600),
        who: Human { name: Some("Ada".to_string()), email: None, source: Source::Git },
        me_file: "/home/me/.nunki/me.yaml".to_string(),
        credentials: None,
        stacks: (0..stacks).map(|i| (format!("s{i}"), format!("/f/s{i}"), None)).collect(),
    }
}

fn titles(checks: &[Check]) -> Vec<&str> {
    checks.iter().map(|c| c.what.as_str()).collect()
}

#[test]
fn check_runs_every_check_in_its_order() {
    let report = run(readings(Ok(vec!["a".to_string(), "A".to_string()]), 2));
    assert_eq!(
        titles(&report.checks),
        vec![
            "the project is a git repository",
            "the tree is on a path a container can mount",
            "no two paths differ only by case",
            "line endings are pinned",
            "the project's HQ exists",
            "the declared harness has an adapter",
            "the rules of the place reach the harness",
            "the account this project spends can authenticate",
            "nunki knows who to hand a mission back to",
            "test credentials live outside the tree",
            "the coder's allowlist for s0 names no forge domain",
            "the coder's allowlist for s1 names no forge domain",
        ]
    );
    assert!(matches!(report.checks[2].verdict, Verdict::Red(_)));
    assert!(matches!(report.checks[6].verdict, Verdict::Green(ref d) if d == "/src/shop/HARNESS.md imports AGENTS.md"));
    assert!(matches!(report.checks[7].verdict, Verdict::Green(ref d) if d == "work (/home/me/.nunki/accounts/work)"));
    assert!(matches!(report.checks[0].verdict, Verdict::Green(ref d) if d == "/src/shop/.git exists"));
}

#[test]
fn check_without_a_listing_or_a_stack_says_so() {
    let report = run(readings(Err("git failed".to_string()), 0));
    assert_eq!(report.checks.len(), 11);
    assert_eq!(report.checks[2].verdict, Verdict::NotChecked("git failed".to_string()));
    assert_eq!(report.checks[10].what, "the coder's allowlist names no forge domain");
}

#[test]
fn a_token_inside_the_repository_is_red() {
    let mut r = readings(Ok(vec![]), 0);
    r.nunki_home = "/src/shop/.nunki".to_string();
    let report = run(r);
    assert!(matches!(report.checks[7].verdict, Verdict::Red(ref d) if d.ends_with("is inside the repository, so every slot and every container would carry it")));
}

#[test]
fn appending_keeps_the_head_and_one_blank_line() {
    assert_eq!(appended("", "## b\n"), "## b\n");
    assert_eq!(appended("head", "## b\n"), "head\n\n## b\n");
    assert_eq!(appended("head\n", "## b\n"), "head\n\n## b\n");
    assert_eq!(appended("head\n\n", "## b\n"), "head\n\n## b\n");
}

#[test]
fn rules_reach_the_harness_only_through_its_own_file() {
    let title = "the rules of the place reach the harness";
    let c = rules_are_reachable("/r/AGENTS.md", false, Some("/r/HARNESS.md"), &RulesFile::Link);
    assert_eq!(c.what, title);
    assert_eq!(c.verdict, Verdict::Red("no /r/AGENTS.md — the rules of the place have to be written somewhere".to_string()));
    let c = rules_are_reachable("/r/AGENTS.md", true, Some("/r/HARNESS.md"), &RulesFile::Absent);
    assert!(matches!(c.verdict, Verdict::Red(ref d) if d.starts_with("no /r/HARNESS.md: ")));
    let c = rules_are_reachable("/r/AGENTS.md", true, Some("/r/HARNESS.md"), &RulesFile::Link);
    assert_eq!(c.verdict, Verdict::Green("/r/HARNESS.md is a link to AGENTS.md".to_string()));
    let c = rules_are_reachable("/r/AGENTS.md", true, Some("/r/HARNESS.md"), &RulesFile::Text("nothing".to_string()));
    assert_eq!(c.verdict, Verdict::Red("/r/HARNESS.md does not import AGENTS.md — add `@AGENTS.md` to it".to_string()));
    let c = rules_are_reachable("/r/AGENTS.md", true, Some("/r/HARNESS.md"), &RulesFile::Unreadable("denied".to_string()));
    assert_eq!(c.verdict, Verdict::NotChecked("/r/HARNESS.md could not be read: denied".to_string()));
    let c = rules_are_reachable("/r/AGENTS.md", true, None, &RulesFile::Absent);
    assert!(matches!(c.verdict, Verdict::NotChecked(_)));
}

#[test]
fn a_stack_domain_on_the_forge_stops_the_start_at_the_profile() {
    let mut ctx = context();
    ctx.stack_domains = vec!["api.github.com".to_string()];
    let (s, _) = StartState::begin(ctx).unwrap();
    let (s, _) = step(s, StartEvent::StateRead(false));
    let (s, _) = step(s, StartEvent::Locked(Ok(())));
    let (s, _) = step(s, StartEvent::HeaderRead(Ok(header(1))));
    let (s, _) = step(s, StartEvent::AccountsRead(Ok(accounts("h"))));
    let (s, _) = step(s, StartEvent::TokenRead("secret".to_string()));
    let (s, _) = step(s, StartEvent::ImagesChecked(vec![true, true]));
    let (s, _) = step(s, StartEvent::BranchRead { current: Ok("feat".to_string()), base_local: true });
    assert!(matches!(start_step(s, StartEvent::Written(Ok(()))), Err(RunError::Perimeter(_))));
}

#[test]
fn a_header_differs_from_itself_in_nothing() {
    assert!(hq::lifecycle::differences(&header(2), &header(2)).is_empty());
    assert_eq!(hq::lifecycle::differences(&header(2), &header(1)).len(), 1);
}

#[test]
fn a_manifest_does_not_depend_on_order_or_repeats() {
    let s = |v: &[&str]| v.iter().map(|x| x.to_string()).collect::<Vec<String>>();
    let a = hq::mutants::manifest(&s(&["b.rs", "a.rs", "b.rs"]), &s(&["22", "11", "22"]));
    let b = hq::mutants::manifest(&s(&["a.rs", "b.rs"]), &s(&["11", "22"]));
    assert_eq!(a, b);
    assert_eq!(a, "11 a.rs\n22 b.rs");
}
