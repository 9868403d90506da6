use hq::gate::{play, Decision, Gate, Phase, Played};
use hq::harness::{Provisioning, Role};
use hq::image::{base_tag, harness_layer, names, ImageError};
use hq::init::{check_stacks, fragment_file, gitattributes, if_absent, Action, InitError};
use hq::launch::{resolve, start_plan, to_check, Declared, Launch, LaunchError, ToCheck};
use hq::mission::dir::{check_id, followup, front_matter, journal, render, MissionDirError, Paths};
use hq::mission::{Bounds, Header, Integration, Lot, Security, Service};
use hq::mutants::manifest;
use hq::probe::{battery_host, check_slot, compose_project, declared, judge, prober_service, service_probes, Probe};
use hq::project::{Config, ForgeProtection, Project, ProtectedPaths};
use hq::slot::Slot;
use hq::check::Verdict;
use hq::compose::{networks_of, services_of, volumes_of, ComposeError, NamedVolume, Part};

fn config(run: Option<&str>) -> Config {
    Config {
        root: None,
        harness: "h".to_string(),
        forge: vec![],
        stacks: vec!["rust".to_string()],
        protected_branches: vec!["main".to_string()],
        protected_paths: ProtectedPaths::default(),
        account: None,
        model: None,
        permission_mode: "auto".to_string(),
        bounds: Bounds::default(),
        credentials: None,
        run: run.map(String::from),
        services_file: None,
        forge_protection: ForgeProtection::Forge,
    }
}

fn project(root: &str, run: Option<&str>) -> Project {
    Project::at(root.to_string(), config(run), "/home/me/.nunki/shop".to_string())
}

fn header(run: Option<&str>, integration: Integration) -> Header {
    Header {
        branch: "feat".to_string(),
        base: "main".to_string(),
        lots: vec![Lot { id: "L1".to_string(), title: "first".to_string() }],
        integration,
        security: Security::Gates,
        arbiter: None,
        account: None,
        model: None,
        run: run.map(String::from),
        bounds: Bounds::default(),
    }
}

fn declined() -> Integration {
    Integration::Declined { reason: "a library".to_string() }
}

fn slot() -> Slot {
    Slot { name: "s1".to_string(), tree: "/slots/s1".to_string() }
}

#[test]
fn the_header_declaration_comes_first() {
    let c = to_check(&project("/r/Shop", Some("./cfg.sh")), &slot(), "rust", &header(Some("  ././bin/start.sh "), declined()));
    assert_eq!(c, ToCheck::TreeScript {
        declared: Declared::Header,
        path: "bin/start.sh".to_string(),
        on_host: "/slots/s1/bin/start.sh".to_string(),
    });
}

#[test]
fn none_means_nothing_to_start() {
    let c = to_check(&project("/r/Shop", Some(" none ")), &slot(), "rust", &header(None, declined()));
    assert_eq!(c, ToCheck::Nothing { declared: Declared::Config });
    assert_eq!(resolve(c, "rust", "/stack", true, true, Ok("abc".to_string())).unwrap(), Launch::Nothing { declared: Declared::Config });
}

#[test]
fn the_stack_default_is_checked_on_the_host_and_run_where_mounted() {
    let c = to_check(&project("/r/Shop", None), &slot(), "rust", &header(None, declined()));
    assert_eq!(c, ToCheck::StackScript { on_host: "/home/me/.nunki/shop/stacks/rust/run.sh".to_string() });
    assert_eq!(
        resolve(c.clone(), "rust", "/work/stack", true, true, Ok(String::new())).unwrap(),
        Launch::Script { path: "/work/stack/run.sh".to_string(), declared: Declared::Stack }
    );
    assert_eq!(
        resolve(c.clone(), "rust", "/work/stack", false, false, Ok(String::new())).unwrap_err(),
        LaunchError::NoStackScript { stack: "rust".to_string(), at: "/home/me/.nunki/shop/stacks/rust/run.sh".to_string() }
    );
    assert_eq!(
        resolve(c, "rust", "/work/stack", true, false, Ok(String::new())).unwrap_err(),
        LaunchError::NotExecutable {
            where_from: "the stack fragment's default".to_string(),
            path: "/home/me/.nunki/shop/stacks/rust/run.sh".to_string(),
        }
    );
}

#[test]
fn a_missing_declared_script_names_the_declaration_and_the_head() {
    let c = to_check(&project("/r/Shop", Some("run/app.sh")), &slot(), "rust", &header(None, declined()));
    assert_eq!(
        resolve(c.clone(), "rust", "/stack", false, false, Ok("deadbeef".to_string())).unwrap_err(),
        LaunchError::Missing {
            where_from: "nunki.yaml's `run:`".to_string(),
            path: "run/app.sh".to_string(),
            head: "deadbeef".to_string(),
        }
    );
    assert_eq!(
        resolve(c, "rust", "/stack", true, true, Ok(String::new())).unwrap(),
        Launch::Script { path: "run/app.sh".to_string(), declared: Declared::Config }
    );
    assert_eq!(Declared::Header.where_from(), "the mission header's `run:`");
}

#[test]
fn the_application_gets_its_session_as_argument() {
    let s = start_plan(Role::Integrator, "/hq/runs", &Launch::Script { path: "bin/app.sh".to_string(), declared: Declared::Config }).unwrap();
    assert_eq!(s.session.0, "nunki-app-integrator");
    assert_eq!(s.log, "/hq/runs/nunki-app-integrator.log");
    assert_eq!(s.command.program, "./bin/app.sh");
    assert_eq!(s.command.args, vec!["nunki-app-integrator".to_string()]);
    assert_eq!(s.command.cwd, "/work/tree");
    let abs = start_plan(Role::Security, "/r", &Launch::Script { path: "/work/stack/run.sh".to_string(), declared: Declared::Stack }).unwrap();
    assert_eq!(abs.command.program, "/work/stack/run.sh");
    assert!(start_plan(Role::Security, "/r", &Launch::Nothing { declared: Declared::Header }).is_none());
}

#[test]
fn images_are_named_per_project_and_stack_in_lower_case() {
    let p = project("/src/MyShop", None);
    assert_eq!(base_tag(&p, "rust"), "nunki/myshop-rust:base");
    let i = names(&p, "rust", "1.2.3");
    assert_eq!(i.agent, "nunki/myshop-rust:latest");
    assert_eq!(i.firewall, "nunki/firewall:1.2.3");
    assert_eq!(i.prober, "nunki/prober:1.2.3");
}

#[test]
fn the_harness_layer_without_a_harness_is_the_head_and_the_mount_points() {
    let layer = harness_layer("nunki/x-rust:base", &Provisioning::default(), &["target".to_string()]);
    assert_eq!(
        layer,
        "# Generated by nunki: the harness, on top of the stack's own image.\n# Do not edit — `nunki slot rebuild` writes it again.\nFROM nunki/x-rust:base\nRUN mkdir -p /work/proof\nRUN mkdir -p /work/tree/target\n"
    );
}

#[test]
fn the_harness_layer_installs_as_the_agent_and_checks_the_binary() {
    let p = Provisioning {
        install: vec!["npm i -g tool".to_string()],
        binary: "tool".to_string(),
        path: vec!["/a".to_string(), "/b".to_string()],
        config_dir: None,
        domains: vec![],
    };
    let layer = harness_layer("base", &p, &[]);
    assert!(layer.contains("ENV PATH=/a:/b:${PATH}\n"));
    assert!(layer.contains("ends as root"));
    assert!(layer.contains("ARG NUNKI_HARNESS_BUILD\n"));
    assert!(layer.contains("RUN npm i -g tool\n"));
    assert!(layer.ends_with("RUN command -v tool > /dev/null || (echo \"nunki: tool is not on PATH after the install\" >&2; exit 1)\n"));
    assert!(layer.find("ends as root").unwrap() < layer.find("RUN npm").unwrap());
}

#[test]
fn image_errors_say_what_to_do() {
    let e = ImageError::NoDockerfile { stack: "rust".to_string(), at: "/h/Dockerfile".to_string() };
    assert_eq!(e.message(), "no Dockerfile for stack \"rust\" at /h/Dockerfile — `nunki init --stack rust` writes one");
    assert_eq!(ImageError::NoEngine("gone".to_string()).message(), "the container engine is not on this machine: gone");
    assert_eq!(ImageError::Build { image: "i".to_string(), stderr: "e".to_string() }.message(), "building i failed:\ne");
    assert_eq!(ImageError::Io("/p".to_string(), "denied".to_string()).message(), "/p: denied");
}

#[test]
fn a_probe_is_green_when_the_fence_did_what_it_expected() {
    let p = Probe { what: "example.com is reached".to_string(), expected: true, script: "true".to_string() };
    let green = judge("the mission profile", &p, true);
    assert_eq!(green.what, "from inside the mission profile: example.com is reached");
    assert_eq!(green.verdict, Verdict::Green("reached".to_string()));
    assert_eq!(judge("the mission profile", &p, false).verdict, Verdict::Red("expected reached, got refused".to_string()));
}

#[test]
fn system_probes_cover_declared_and_undeclared_services() {
    let h = header(None, Integration::Services {
        services: vec![
            Service { name: "db".to_string(), reach: vec!["db".to_string()], shared: false },
            Service { name: "pay".to_string(), reach: vec!["pay.example".to_string(), "10.0.0.1".to_string()], shared: true },
        ],
        wiring: vec![],
    });
    let d = declared(&h);
    assert_eq!(d, vec!["db".to_string(), "pay.example".to_string(), "10.0.0.1".to_string()]);
    assert_eq!(battery_host(&["db".to_string(), "crates.io".to_string()], &d), "crates.io");
    assert_eq!(battery_host(&["db".to_string()], &d), "example.com");
    let probes = service_probes(&["db".to_string()], &["db".to_string(), "prober".to_string(), "cache".to_string()]);
    assert_eq!(probes.len(), 2);
    assert_eq!(probes[0].what, "db, a service the mission declares, resolves");
    assert!(probes[0].expected);
    assert_eq!(probes[0].script, "nslookup db 2>&1 | tail -5 | grep -q 'Address: [0-9]'");
    assert_eq!(probes[1].what, "cache, a project service the mission does not declare, resolves");
    assert!(!probes[1].expected);
}

#[test]
fn a_check_lifts_under_a_name_of_its_own() {
    assert_eq!(check_slot(&slot()).name, "s1-check");
    assert_eq!(check_slot(&slot()).tree, "/slots/s1");
    assert_eq!(compose_project("abcdefghij", "s1").unwrap(), "nunki-abcdefgh-s1-check");
    assert_eq!(
        prober_service("img", 1000, 100),
        "prober:\n  image: img\n  network_mode: \"service:firewall\"\n  cap_drop: [ALL]\n  security_opt: [\"no-new-privileges:true\"]\n  user: \"1000:100\"\n  depends_on:\n    firewall:\n      condition: service_healthy\n  command: [\"sleep\", \"600\"]\n"
    );
}

#[test]
fn init_refuses_an_unknown_stack_and_names_the_known_ones() {
    assert!(check_stacks(&["rust".to_string()]).is_ok());
    let e = check_stacks(&["rust".to_string(), "go".to_string(), "zig".to_string()]).unwrap_err();
    assert_eq!(e, InitError::UnknownStack("go".to_string(), "rust".to_string()));
    assert_eq!(e.message(), "no stack fragment for \"go\"; known: rust");
    assert_eq!(InitError::NotADirectory("/x".to_string()).message(), "/x is not a directory");
}

#[test]
fn init_never_overwrites_what_exists() {
    assert_eq!(if_absent("/r", "AGENTS.md", false), Action::Created("/r/AGENTS.md".to_string()));
    let kept = if_absent("/r", "AGENTS.md", true);
    assert_eq!(kept.render(), "kept     /r/AGENTS.md — it exists, and nunki never overwrites a file a human edits");
    assert_eq!(fragment_file("/h/stacks/rust", "run.sh", true).render(), "kept     /h/stacks/rust/run.sh — a stack fragment belongs to the project");
    assert_eq!(Action::Created("/p".to_string()).render(), "created  /p");
}

#[test]
fn gitattributes_is_written_kept_or_suggested_beside() {
    assert_eq!(gitattributes("/r", None, false), (Action::Created("/r/.gitattributes".to_string()), false));
    assert_eq!(
        gitattributes("/r", Some("* text=auto eol=lf\n"), false),
        (Action::LeftAlone("/r/.gitattributes".to_string(), "it already pins LF".to_string()), false)
    );
    let (a, write) = gitattributes("/r", Some("*.png binary\n"), false);
    assert!(write);
    assert_eq!(a.render(), "kept     /r/.gitattributes — its replacement is beside it, at /r/.gitattributes.nunki");
    assert!(!gitattributes("/r", Some("*.png binary\n"), true).1);
}

#[test]
fn mission_files_are_named_under_the_hq() {
    let p = Paths::of("/h/hq", "m-1");
    assert_eq!(p.dir, "/h/hq/missions/m-1");
    assert_eq!(p.mission, "/h/hq/missions/m-1/MISSION.md");
    assert_eq!(p.followup, "/h/hq/missions/m-1/FOLLOWUP_HQ.md");
    assert_eq!(p.verdict, "/h/hq/missions/m-1/VERDICT.json");
    assert_eq!(p.triage, "/h/hq/missions/m-1/MUTANTS.triage.json");
    assert_eq!(p.mutants, "/h/hq/missions/m-1/MUTANTS.json");
}

#[test]
fn a_mission_id_is_letters_digits_dash_and_underscore() {
    assert!(check_id("m_1-a").is_ok());
    assert_eq!(check_id("-m").unwrap_err(), MissionDirError::BadId("-m".to_string()));
    assert!(check_id("").is_err());
    assert!(check_id("a/b").is_err());
    assert_eq!(
        check_id("é").unwrap_err().message(),
        "a mission id may hold letters, digits, - and _ only, and \"é\" does not"
    );
}

#[test]
fn the_header_is_the_text_between_the_first_two_rules() {
    assert_eq!(front_matter("---\nbranch: x\n---\n# Mission"), Some("branch: x".to_string()));
    assert_eq!(front_matter("# no header"), None);
    assert_eq!(front_matter("---\nbranch: x\n"), None);
    assert_eq!(render("branch: x\n", "Do it.  \n\n"), "---\nbranch: x\n---\n\n# Mission\n\nDo it.\n");
}

#[test]
fn a_new_journal_and_followup_say_who_and_what() {
    assert!(journal("m-1").starts_with("# Journal — m-1\n\n## ÉTAT DE REPRISE\n\nNothing has run yet.\n"));
    let mut h = header(None, declined());
    assert!(followup(&h).starts_with("# Follow-up — for the human\n\nFor the human and the HQ."));
    h.arbiter = Some("Ada".to_string());
    let f = followup(&h);
    assert!(f.contains("addressed to Ada."));
    assert!(!f.contains("{who}"));
}

#[test]
fn the_report_of_a_run_plays_five_gates_and_the_final_eight() {
    let played = || Played {
        clean_tree: Decision::Passed,
        branch_ahead: Decision::Passed,
        resume_names_head: Decision::Passed,
        perimeter: Decision::Passed,
        deliverable: Some(Decision::Passed),
        battery: Some(Decision::Passed),
        mutation: Some(hq::gate::Outcome::of(Gate::Mutation, Decision::Passed)),
        security: Some(Decision::Passed),
    };
    let after = play(Role::Coder, "abc".to_string(), Phase::AfterRun, None, played());
    assert_eq!(after.outcomes.len(), 5);
    assert_eq!(after.outcomes[4].gate, Gate::MechanicalSecurity);
    assert!(after.passed());
    let fin = play(Role::Coder, "abc".to_string(), Phase::Final, Some("a campaign is running".to_string()), played());
    assert_eq!(fin.outcomes.len(), 8);
    assert_eq!(fin.outcomes[5].decision, Decision::Unplayed("a campaign is running".to_string()));
    assert!(fin.outcomes[5].waits_on_campaign);
    assert!(fin.outcomes[7].waits_on_campaign);
    assert!(!fin.passed());
}

#[test]
fn a_manifest_is_sorted_and_takes_each_path_once() {
    let m = manifest(
        &["src/b.rs".to_string(), "src/a.rs".to_string(), "src/b.rs".to_string()],
        &["222".to_string(), "111".to_string(), "999".to_string()],
    );
    assert_eq!(m, "111 src/a.rs\n222 src/b.rs");
    let reordered = manifest(&["src/a.rs".to_string(), "src/b.rs".to_string()], &["111".to_string(), "222".to_string()]);
    assert_eq!(m, reordered);
    assert_eq!(manifest(&[], &[]), "");
}

#[test]
fn a_lot_is_written_id_colon_title() {
    let l = hq::mission::parse_lot(" L1 : the parser ").unwrap();
    assert_eq!((l.id.as_str(), l.title.as_str()), ("L1", "the parser"));
    assert_eq!(hq::mission::parse_lot("L1").unwrap_err(), "a lot is written `id:title`, and \"L1\" is not");
    assert_eq!(hq::mission::parse_lot("L1: ").unwrap_err(), "a lot needs an id and a title, and \"L1: \" lacks one");
    assert_eq!(hq::mission::parse_lot("a:b:c").unwrap().title, "b:c");
}

#[test]
fn a_service_is_written_name_equals_hosts() {
    let s = hq::mission::parse_service("db = db.local, ,10.0.0.2 ").unwrap();
    assert_eq!(s.name, "db");
    assert_eq!(s.reach, vec!["db.local".to_string(), "10.0.0.2".to_string()]);
    assert!(!s.shared);
    assert_eq!(hq::mission::parse_service("db").unwrap_err(), "a service is written `name=host[,host…]`, and \"db\" is not");
    assert_eq!(hq::mission::parse_service("db= , ").unwrap_err(), "a service needs a name and something to reach, and \"db= , \" lacks one");
}

#[test]
fn the_project_compose_file_is_merged_under_the_hq_names() {
    assert_eq!(networks_of(&Part::Absent).unwrap(), Vec::<String>::new());
    assert_eq!(networks_of(&Part::Sequence).unwrap_err(), ComposeError::ProjectNetworksShape("a sequence".to_string()));
    assert_eq!(services_of(&Part::Null).unwrap(), vec!["firewall".to_string(), "agent".to_string()]);
    assert_eq!(
        services_of(&Part::Mapping(vec!["db".to_string()])).unwrap(),
        vec!["firewall".to_string(), "agent".to_string(), "db".to_string()]
    );
    assert_eq!(services_of(&Part::Mapping(vec!["db".to_string(), "agent".to_string()])).unwrap_err(), ComposeError::ReservedService("agent".to_string()));
    assert_eq!(services_of(&Part::Scalar).unwrap_err(), ComposeError::ProjectServicesShape("a scalar".to_string()));
    let own = vec![NamedVolume { name: "nunki-s1-proof".to_string(), at: "/work/proof".to_string() }];
    assert_eq!(
        volumes_of("s1", &own, &Part::Mapping(vec!["pgdata".to_string()])).unwrap(),
        vec!["nunki-s1-proof".to_string(), "pgdata".to_string()]
    );
    assert_eq!(volumes_of("s1", &own, &Part::Mapping(vec!["nunki-s1-cache".to_string()])).unwrap_err(), ComposeError::ReservedVolume("nunki-s1-cache".to_string()));
    assert_eq!(volumes_of("s1", &own, &Part::Mapping(vec!["a".to_string(), "a".to_string()])).unwrap_err(), ComposeError::ReservedVolume("a".to_string()));
}
