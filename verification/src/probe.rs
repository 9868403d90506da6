//! Probing the perimeter from inside a container.
//!
//! The half of the check that cannot be answered by reading files: whether
//! the fence actually holds. A profile is lifted under a Compose project of
//! its own, every route out is tried from a prober container in the
//! agent's network namespace, and the profile is taken down again. Lifting
//! and probing are the program's; this module says what is tried, and what
//! each answer means.

use vstd::prelude::*;
use crate::check::{Check, Verdict};
use crate::compose::ComposeError;
use crate::mission::{Header, Integration, Service};
use crate::slot::Slot;
use crate::text::{decimal, owned, push_str, views};

verus! {

/// The service the battery is run from.
pub const PROBER_SERVICE: &'static str = "prober";

/// One route out, and whether the fence should let it through.
#[derive(Debug, Clone, PartialEq, Eq)]
pub struct Probe {
    pub what: String,
    /// Whether the route should be open.
    pub expected: bool,
    /// The shell script that tries it, exiting 0 when it got through.
    pub script: String,
}

/// Why a probe run could not be made.
#[derive(Debug)]
pub enum ProbeError {
    NoImages(String, String),
    Up(crate::engine::EngineError),
    Io(String, String),
    Compose(ComposeError),
    Perimeter(crate::perimeter::PerimeterError),
    NotStarted(String),
    Slot(crate::slot::SlotError),
    Plan(crate::run::RunError),
    ProberNameTaken(String),
}

/// The Compose project a probe run uses: the slot's, with `-check`
/// appended, so that the slot's own services are neither reused nor taken
/// down by a check.
pub fn compose_project(session: &str, slot: &str) -> (r: Result<String, ComposeError>)
    requires
        crate::text::bytes_end_on_char(session@, 8),
    ensures
        match (r, crate::compose::spec_project_name(session@, slot@ + "-check"@)) {
            (Ok(a), Ok(b)) => a@ == b,
            (Err(ComposeError::SlotName(a)), Err(b)) => a@ == b,
            _ => false,
        },
{
    let mut name = owned(slot);
    push_str(&mut name, "-check");
    crate::compose::project_name(session, name.as_str())
}

/// The slot a system-profile check lifts under: the slot's tree, under a
/// name of its own, so that everything named after a slot becomes the
/// check's and the project's services are lifted beside the slot's rather
/// than on top of them.
pub fn check_slot(slot: &Slot) -> (r: Slot)
    ensures
        r.name@ == slot.name@ + "-check"@,
        r.tree@ == slot.tree@,
{
    let mut name = slot.name.clone();
    push_str(&mut name, "-check");
    Slot { name, tree: slot.tree.clone() }
}

/// An answer, as a word.
pub open spec fn spec_say(reached: bool) -> Seq<char> {
    if reached { "reached"@ } else { "refused"@ }
}

fn say(reached: bool) -> (r: &'static str)
    ensures
        r@ == spec_say(reached),
{
    if reached { "reached" } else { "refused" }
}

/// What one probe's answer means: green when the fence did what the probe
/// expected, red when it did not. The same for every profile, so that
/// green means the same thing in each.
pub fn judge(profile: &str, probe: &Probe, reached: bool) -> (c: Check)
    ensures
        c.what@ == "from inside "@ + profile@ + ": "@ + probe.what@,
        reached == probe.expected ==> (c.verdict matches Verdict::Green(g) && g@ == spec_say(reached)),
        reached != probe.expected ==> (c.verdict matches Verdict::Red(m)
            && m@ == "expected "@ + spec_say(probe.expected) + ", got "@ + spec_say(reached)),
{
    let mut what = owned("from inside ");
    push_str(&mut what, profile);
    push_str(&mut what, ": ");
    push_str(&mut what, probe.what.as_str());
    if reached == probe.expected {
        Check { what, verdict: Verdict::Green(owned(say(reached))) }
    } else {
        let mut m = owned("expected ");
        push_str(&mut m, say(probe.expected));
        push_str(&mut m, ", got ");
        push_str(&mut m, say(reached));
        Check { what, verdict: Verdict::Red(m) }
    }
}

/// The hosts a mission's services may reach, service after service.
pub open spec fn spec_declared(h: Header) -> Seq<Seq<char>> {
    match h.integration {
        Integration::Services { services, .. } => reach_of(services@),
        Integration::Declined { .. } => Seq::empty(),
    }
}

/// The reach of each service, in order.
pub open spec fn reach_of(ss: Seq<Service>) -> Seq<Seq<char>>
    decreases ss.len(),
{
    if ss.len() == 0 { Seq::empty() } else { reach_of(ss.drop_last()) + views(ss.last().reach@) }
}

/// The hosts a mission's services may reach.
pub fn declared(header: &Header) -> (r: Vec<String>)
    ensures
        views(r@) == spec_declared(*header),
{
    let mut r: Vec<String> = Vec::new();
    match &header.integration {
        Integration::Services { services, .. } => {
            let mut i: usize = 0;
            while i < services.len()
                invariant
                    i <= services@.len(),
                    views(r@) == reach_of(services@.subrange(0, i as int)),
                decreases services@.len() - i,
            {
                assert(services@.subrange(0, i + 1).drop_last() =~= services@.subrange(0, i as int));
                crate::text::extend_strings(&mut r, services[i].reach.as_slice(), 0);
                assert(views(services@[i as int].reach@).subrange(0, services@[i as int].reach@.len() as int) =~= views(services@[i as int].reach@));
                i += 1;
            }
            assert(services@.subrange(0, services@.len() as int) =~= services@);
        },
        Integration::Declined { .. } => {},
    }
    r
}

/// The first index from `i` on of a domain no service declares.
pub open spec fn first_free(domains: Seq<Seq<char>>, declared: Seq<Seq<char>>, i: int) -> Option<Seq<char>>
    decreases domains.len() - i,
{
    if i < 0 || i >= domains.len() {
        None
    } else if !declared.contains(domains[i]) {
        Some(domains[i])
    } else {
        first_free(domains, declared, i + 1)
    }
}

/// The host the battery may reach: the first the perimeter allows for its
/// own sake and not for a declared service, since a service listens where
/// it listens and a probe on another port would read as a wall that is not
/// there.
pub open spec fn spec_battery_host(domains: Seq<Seq<char>>, declared: Seq<Seq<char>>) -> Seq<char> {
    match first_free(domains, declared, 0) {
        Some(d) => d,
        None => "example.com"@,
    }
}

/// The host the battery tries as one that must be reached.
pub fn battery_host(domains: &[String], declared: &[String]) -> (r: String)
    ensures
        r@ == spec_battery_host(views(domains@), views(declared@)),
{
    let mut i: usize = 0;
    while i < domains.len()
        invariant
            i <= domains@.len(),
            first_free(views(domains@), views(declared@), 0) == first_free(views(domains@), views(declared@), i as int),
        decreases domains@.len() - i,
    {
        if !crate::gate::contains_string(declared, domains[i].as_str()) {
            return domains[i].clone();
        }
        i += 1;
    }
    owned("example.com")
}

/// The script that says whether a name resolves from inside.
pub open spec fn spec_resolves(name: Seq<char>) -> Seq<char> {
    "nslookup "@ + name + " 2>&1 | tail -5 | grep -q 'Address: [0-9]'"@
}

fn resolves(name: &str) -> (r: String)
    ensures
        r@ == spec_resolves(name@),
{
    let mut r = owned("nslookup ");
    push_str(&mut r, name);
    push_str(&mut r, " 2>&1 | tail -5 | grep -q 'Address: [0-9]'");
    r
}

/// The probes only a system profile has: each service the mission
/// declares must resolve, and each service the project lifts without the
/// mission declaring it must not, the fence being the only thing between
/// it and the agent.
pub open spec fn spec_service_probes(declared: Seq<Seq<char>>, project: Seq<Seq<char>>) -> Seq<(Seq<char>, bool, Seq<char>)> {
    declared.map_values(|n: Seq<char>| (n + ", a service the mission declares, resolves"@, true, spec_resolves(n)))
        + undeclared(declared, project).map_values(
            |n: Seq<char>| (n + ", a project service the mission does not declare, resolves"@, false, spec_resolves(n)))
}

/// The project's services the mission does not declare, the prober left
/// out, in order.
pub open spec fn undeclared(declared: Seq<Seq<char>>, project: Seq<Seq<char>>) -> Seq<Seq<char>>
    decreases project.len(),
{
    if project.len() == 0 {
        Seq::empty()
    } else {
        let rest = undeclared(declared, project.drop_last());
        let n = project.last();
        if n != PROBER_SERVICE@ && !declared.contains(n) { rest.push(n) } else { rest }
    }
}

/// A probe as plain values.
pub open spec fn probe_view(p: Probe) -> (Seq<char>, bool, Seq<char>) {
    (p.what@, p.expected, p.script@)
}

/// The probes a system profile adds to the battery, given the hosts the
/// mission declares and the names of the services the project lifts.
pub fn service_probes(declared: &[String], project: &[String]) -> (r: Vec<Probe>)
    ensures
        r@.map_values(|p: Probe| probe_view(p)) == spec_service_probes(views(declared@), views(project@)),
{
    let mut r: Vec<Probe> = Vec::new();
    let mut i: usize = 0;
    while i < declared.len()
        invariant
            i <= declared@.len(),
            r@.map_values(|p: Probe| probe_view(p)) == views(declared@).subrange(0, i as int).map_values(
                |n: Seq<char>| (n + ", a service the mission declares, resolves"@, true, spec_resolves(n))),
        decreases declared@.len() - i,
    {
        let mut what = declared[i].clone();
        push_str(&mut what, ", a service the mission declares, resolves");
        let ghost before = r@;
        let probe = Probe { what, expected: true, script: resolves(declared[i].as_str()) };
        assert(probe_view(probe) == (views(declared@)[i as int] + ", a service the mission declares, resolves"@, true,
            spec_resolves(views(declared@)[i as int])));
        r.push(probe);
        assert(r@.map_values(|p: Probe| probe_view(p)) =~= before.map_values(|p: Probe| probe_view(p)).push(probe_view(probe)));
        assert(views(declared@).subrange(0, i + 1) =~= views(declared@).subrange(0, i as int).push(views(declared@)[i as int]));
        assert(views(declared@).subrange(0, i + 1).map_values(
            |n: Seq<char>| (n + ", a service the mission declares, resolves"@, true, spec_resolves(n)))
            =~= views(declared@).subrange(0, i as int).map_values(
            |n: Seq<char>| (n + ", a service the mission declares, resolves"@, true, spec_resolves(n))).push(probe_view(probe)));
        i += 1;
    }
    assert(views(declared@).subrange(0, declared@.len() as int) =~= views(declared@));
    let ghost head = r@.map_values(|p: Probe| probe_view(p));
    let mut j: usize = 0;
    while j < project.len()
        invariant
            j <= project@.len(),
            r@.map_values(|p: Probe| probe_view(p)) == head + undeclared(views(declared@), views(project@).subrange(0, j as int)).map_values(
                |n: Seq<char>| (n + ", a project service the mission does not declare, resolves"@, false, spec_resolves(n))),
        decreases project@.len() - j,
    {
        assert(views(project@).subrange(0, j + 1).drop_last() =~= views(project@).subrange(0, j as int));
        let name = project[j].as_str();
        let ghost before = r@;
        let ghost prev = undeclared(views(declared@), views(project@).subrange(0, j as int));
        if !crate::text::str_eq(name, PROBER_SERVICE) && !crate::gate::contains_string(declared, name) {
            let mut what = owned(name);
            push_str(&mut what, ", a project service the mission does not declare, resolves");
            let probe = Probe { what, expected: false, script: resolves(name) };
            r.push(probe);
            assert(r@.map_values(|p: Probe| probe_view(p)) =~= before.map_values(|p: Probe| probe_view(p)).push(probe_view(probe)));
            assert(prev.push(name@).map_values(
                |n: Seq<char>| (n + ", a project service the mission does not declare, resolves"@, false, spec_resolves(n)))
                =~= prev.map_values(
                |n: Seq<char>| (n + ", a project service the mission does not declare, resolves"@, false, spec_resolves(n))).push(probe_view(probe)));
        }
        j += 1;
    }
    assert(views(project@).subrange(0, project@.len() as int) =~= views(project@));
    r
}

/// The prober, declared the way a project declares a service, so that it
/// goes through the generator's own merge.
pub open spec fn spec_prober_service(image: Seq<char>, uid: u32, gid: u32) -> Seq<char> {
    PROBER_SERVICE@ + ":\n  image: "@ + image + "\n  network_mode: \"service:"@ + crate::compose::FIREWALL_SERVICE@
        + "\"\n  cap_drop: [ALL]\n  security_opt: [\"no-new-privileges:true\"]\n  user: \""@
        + crate::text::spec_decimal(uid as nat) + ":"@ + crate::text::spec_decimal(gid as nat)
        + "\"\n  depends_on:\n    "@ + crate::compose::FIREWALL_SERVICE@
        + ":\n      condition: service_healthy\n  command: [\"sleep\", \"600\"]\n"@
}

/// The prober's service, as the YAML the project's services are merged
/// from.
pub fn prober_service(image: &str, uid: u32, gid: u32) -> (r: String)
    ensures
        r@ == spec_prober_service(image@, uid, gid),
{
    let mut r = owned(PROBER_SERVICE);
    push_str(&mut r, ":\n  image: ");
    push_str(&mut r, image);
    push_str(&mut r, "\n  network_mode: \"service:");
    push_str(&mut r, crate::compose::FIREWALL_SERVICE);
    push_str(&mut r, "\"\n  cap_drop: [ALL]\n  security_opt: [\"no-new-privileges:true\"]\n  user: \"");
    push_str(&mut r, decimal(uid as u64).as_str());
    push_str(&mut r, ":");
    push_str(&mut r, decimal(gid as u64).as_str());
    push_str(&mut r, "\"\n  depends_on:\n    ");
    push_str(&mut r, crate::compose::FIREWALL_SERVICE);
    push_str(&mut r, ":\n      condition: service_healthy\n  command: [\"sleep\", \"600\"]\n");
    r
}

} // verus!
