use hq::gate::{head_of, mechanical_security, Decision};
use hq::harness::Role;
use hq::security::{Finding, Kind};

fn finding(id: &str, kind: Kind, accepted: &str, fix: &str, was_at_base: bool) -> Finding {
    Finding {
        id: id.to_string(),
        kind,
        at: "crate 1.0".to_string(),
        via: String::new(),
        fix: fix.to_string(),
        accepted: accepted.to_string(),
        was_at_base,
    }
}

#[test]
fn the_security_agent_owes_no_tool_report() {
    assert_eq!(
        mechanical_security(Role::Security, "/s", "/a", "base", Ok((0, Ok(vec![])))).unwrap(),
        Decision::NotApplicable("the security agent attacks what is built; it owes findings, not a tool's report".to_string())
    );
}

#[test]
fn each_script_status_sends_a_human_somewhere_else() {
    assert_eq!(mechanical_security(Role::Coder, "/s", "/a", "base", Err("the container is gone".to_string())).unwrap(), Decision::Unplayed("the container is gone".to_string()));
    assert_eq!(mechanical_security(Role::Coder, "/s", "/a", "base", Ok((67, Ok(vec![])))).unwrap(), Decision::Failed("/s/security.sh is not executable, so nothing ran".to_string()));
    assert!(matches!(mechanical_security(Role::Coder, "/s", "/a", "base", Ok((66, Ok(vec![])))).unwrap(), Decision::Failed(w) if w.starts_with("there is no security script at /s/security.sh")));
    assert!(matches!(mechanical_security(Role::Coder, "/s", "/adv", "base", Ok((69, Ok(vec![])))).unwrap(), Decision::Unplayed(w) if w.starts_with("no advisory database at /adv")));
    assert_eq!(
        mechanical_security(Role::Coder, "/s", "/a", "abc", Ok((70, Ok(vec![])))).unwrap(),
        Decision::Unplayed("abc is not in the clean copy of HEAD, so there is nothing to compare this branch against".to_string())
    );
    assert!(mechanical_security(Role::Coder, "/s", "/a", "b", Ok((0, Err("bad json".to_string())))).is_err());
}

#[test]
fn what_the_branch_brought_and_nobody_ruled_on_is_red() {
    assert_eq!(mechanical_security(Role::Coder, "/s", "/a", "b", Ok((0, Ok(vec![])))).unwrap(), Decision::Passed);
    let old = finding("RUSTSEC-1", Kind::Vulnerability, "", "", true);
    assert_eq!(mechanical_security(Role::Coder, "/s", "/a", "b", Ok((0, Ok(vec![old])))).unwrap(), Decision::Passed);
    let new = finding("RUSTSEC-2", Kind::Vulnerability, "", "2.0", false);
    assert_eq!(
        mechanical_security(Role::Integrator, "/s", "/a", "b", Ok((1, Ok(vec![new])))).unwrap(),
        Decision::Failed("1 finding(s) this branch brought, and nobody has ruled on: RUSTSEC-2 (Vulnerability) crate 1.0 — fixed in 2.0".to_string())
    );
    let secret = finding("aws-key", Kind::Secret, "", "", false);
    assert!(matches!(
        mechanical_security(Role::Coder, "/s", "/a", "b", Ok((1, Ok(vec![secret])))).unwrap(),
        Decision::Failed(w) if w.ends_with("so it stops being reported")
    ));
    let stale = finding("RUSTSEC-3", Kind::Unmaintained, "no fix yet", "3.1", true);
    assert_eq!(
        mechanical_security(Role::Coder, "/s", "/a", "b", Ok((0, Ok(vec![stale])))).unwrap(),
        Decision::Failed("1 exception(s) a fix has overtaken — apply it and drop the exception: RUSTSEC-3 (Unmaintained) crate 1.0 — fixed in 3.1".to_string())
    );
}

#[test]
fn a_list_is_cut_after_its_first_items() {
    let items: Vec<String> = (1..=3).map(|i| format!("p{i}")).collect();
    assert_eq!(head_of(&items, 10), "p1; p2; p3");
    assert_eq!(head_of(&items, 2), "p1; p2; …");
    assert_eq!(head_of(&[], 2), "");
}
