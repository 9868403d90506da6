//! Compose generation.
//!
//! The HQ invents no format: it writes a Compose file per profile at every
//! launch, from the frozen mission header, `nunki.yaml` and the stack
//! fragment, and an engine adapter runs it. Three shapes are load-bearing:
//! the firewall owns the network namespace and the agent joins it; the agent
//! therefore declares no network of its own; and every profile re-declares
//! the project's services identically, under a project name stable for the
//! slot. The services the HQ writes are built here; the document, with the
//! project's own blocks merged verbatim, is written by the program around
//! this crate.

pub mod model;

use vstd::prelude::*;
use crate::engine::Dialect;
use crate::harness::Role;
use crate::perimeter::{Perimeter, Profile};
use crate::text::{
    ascii_lower, bytes_end_on_char, chars_of, has_prefix, join, join_strings, owned, path_join,
    join_path, prefix_bytes, push_char, push_str, take_bytes, to_ascii_lower, views, decimal,
    spec_decimal, str_eq,
};
use model::{Healthcheck, Service};

verus! {

/// The sidecar's service name in every generated file.
pub const FIREWALL_SERVICE: &'static str = "firewall";
/// The agent's service name in every generated file.
pub const AGENT_SERVICE: &'static str = "agent";

/// The only files an agent may write in the mission folder. What decides who
/// wrote a line is this list, not the line.
pub open spec fn agent_writable() -> Seq<Seq<char>> {
    seq!["JOURNAL.md"@, "PR.md"@, "VERDICT.json"@, "MUTANTS.triage.json"@]
}

fn agent_writable_names() -> (r: Vec<&'static str>)
    ensures
        r@.len() == 4,
        forall|i: int| 0 <= i < 4 ==> (#[trigger] r@[i])@ == agent_writable()[i],
{
    let mut r: Vec<&'static str> = Vec::new();
    r.push("JOURNAL.md");
    r.push("PR.md");
    r.push("VERDICT.json");
    r.push("MUTANTS.triage.json");
    r
}

/// The uid and gid of the human, passed through so that files the agent
/// creates belong to them on the host.
#[derive(Debug, Clone, Copy, PartialEq, Eq, Structural)]
pub struct UserIds {
    pub uid: u32,
    pub gid: u32,
}

/// A named volume: the slot's caches, the harness config directory, the
/// writable directories a read-only tree still needs.
#[derive(Debug, Clone, PartialEq, Eq)]
pub struct NamedVolume {
    pub name: String,
    /// Where it is mounted inside the container.
    pub at: String,
}

/// Why a Compose file could not be generated.
#[derive(Debug, Clone, PartialEq, Eq)]
pub enum ComposeError {
    /// The slot yields no usable Compose project name.
    SlotName(String),
    /// The project declares a service the HQ reserves.
    ReservedService(String),
    /// The project's services are not a mapping: what they are instead.
    ProjectServicesShape(String),
    ProjectNetworksShape(String),
    ProjectVolumesShape(String),
    /// The project declares a volume the HQ reserves for the slot.
    ReservedVolume(String),
    /// What must be an absolute path, and the path.
    RelativePath { what: String, path: String },
    /// The mission profile carries credential files.
    CredentialsOnMissionProfile(usize),
    /// No domain and no address is allowed.
    EmptyPerimeter,
}

/// Whether `c` is an ASCII letter or digit.
pub open spec fn is_ascii_alnum(c: char) -> bool {
    ('a' <= c && c <= 'z') || ('A' <= c && c <= 'Z') || ('0' <= c && c <= '9')
}

/// A character as a Compose name keeps it: lower case, and `-` in place of
/// anything but a letter, a digit, `-` or `_`.
pub open spec fn name_char(c: char) -> char {
    let l = ascii_lower(c);
    if is_ascii_alnum(l) || l == '-' || l == '_' { l } else { '-' }
}

/// A name Compose accepts, or nothing: lower-case letters, digits, `-` and
/// `_`, starting on a letter or a digit.
pub open spec fn spec_legal(part: Seq<char>) -> Option<Seq<char>> {
    let name = part.map_values(|c: char| name_char(c));
    let k = crate::text::next_where(name, 0, |c: char| is_ascii_alnum(c));
    if k >= name.len() { None } else { Some(name.subrange(k, name.len() as int)) }
}

/// A name Compose accepts, or nothing.
fn legal(part: &str) -> (r: Option<String>)
    ensures
        match (r, spec_legal(part@)) {
            (Some(a), Some(b)) => a@ == b,
            (None, None) => true,
            _ => false,
        },
{
    let v = chars_of(part);
    let ghost name = part@.map_values(|c: char| name_char(c));
    let mut mapped: Vec<char> = Vec::new();
    let mut i: usize = 0;
    while i < v.len()
        invariant
            v@ == part@,
            i <= v@.len(),
            mapped@ == part@.take(i as int).map_values(|c: char| name_char(c)),
        decreases v@.len() - i,
    {
        let l = to_ascii_lower(v[i]);
        let keep = ('a' <= l && l <= 'z') || ('A' <= l && l <= 'Z') || ('0' <= l && l <= '9') || l == '-' || l == '_';
        mapped.push(if keep { l } else { '-' });
        i += 1;
        assert(mapped@ =~= part@.take(i as int).map_values(|c: char| name_char(c)));
    }
    assert(part@.take(i as int) =~= part@);
    let mut k: usize = 0;
    while k < mapped.len() && !(('a' <= mapped[k] && mapped[k] <= 'z') || ('A' <= mapped[k] && mapped[k] <= 'Z') || ('0' <= mapped[k] && mapped[k] <= '9'))
        invariant
            mapped@ == name,
            k <= mapped@.len(),
            forall|j: int| 0 <= j < k ==> !is_ascii_alnum(#[trigger] name[j]),
        decreases mapped@.len() - k,
    {
        k += 1;
    }
    proof {
        crate::text::lemma_next_where(name, 0, |c: char| is_ascii_alnum(c));
        let n = crate::text::next_where(name, 0, |c: char| is_ascii_alnum(c));
        if n < k { assert(is_ascii_alnum(name[n])); }
        if k < n { assert(is_ascii_alnum(name[k as int])); }
    }
    if k == mapped.len() {
        return None;
    }
    Some(crate::text::string_of(mapped.as_slice(), k, mapped.len()))
}

/// As much of a session as a name needs: its first eight bytes.
pub open spec fn spec_short(session: Seq<char>) -> Seq<char> {
    take_bytes(session, 8)
}

/// The Compose project name: the session and the slot, in that order, each
/// made legal. Stable across the three profiles, which is what keeps the
/// project's services up between them; the session is in it because the
/// slot alone is not unique across projects.
pub open spec fn spec_project_name(session: Seq<char>, slot: Seq<char>) -> Result<Seq<char>, Seq<char>> {
    match spec_legal(slot) {
        None => Err(slot),
        Some(s) => match spec_legal(spec_short(session)) {
            None => Err(s),
            Some(p) => Ok("nunki-"@ + p + "-"@ + s),
        },
    }
}

/// The Compose project name: `nunki-<session>-<slot>`. The slot is judged on
/// its own, and the session's first eight bytes must end on a character.
pub fn project_name(session: &str, slot: &str) -> (r: Result<String, ComposeError>)
    requires
        bytes_end_on_char(session@, 8),
    ensures
        match (r, spec_project_name(session@, slot@)) {
            (Ok(a), Ok(b)) => a@ == b,
            (Err(ComposeError::SlotName(a)), Err(b)) => a@ == b,
            _ => false,
        },
{
    let slot = match legal(slot) {
        Some(s) => s,
        None => return Err(ComposeError::SlotName(owned(slot))),
    };
    let short = prefix_bytes(session, 8);
    let session = match legal(short) {
        Some(s) => s,
        None => return Err(ComposeError::SlotName(slot)),
    };
    let mut name = owned("nunki-");
    push_str(&mut name, session.as_str());
    push_str(&mut name, "-");
    push_str(&mut name, slot.as_str());
    Ok(name)
}

/// A path is absolute when it begins at the root.
pub open spec fn is_absolute(path: Seq<char>) -> bool {
    path.len() > 0 && path[0] == '/'
}

/// Refuse a relative path where an absolute one is needed.
pub fn absolute(what: &str, path: &str) -> (r: Result<(), ComposeError>)
    ensures
        is_absolute(path@) ==> r is Ok,
        !is_absolute(path@) ==> (r matches Err(ComposeError::RelativePath { what: w, path: p })
            && w@ == what@ && p@ == path@),
{
    let v = chars_of(path);
    if v.len() > 0 && v[0] == '/' {
        Ok(())
    } else {
        Err(ComposeError::RelativePath { what: owned(what), path: owned(path) })
    }
}

/// A bind mount: `host:at:mode`.
pub open spec fn spec_mount(host: Seq<char>, at: Seq<char>, mode: Seq<char>) -> Seq<char> {
    host + ":"@ + at + ":"@ + mode
}

fn mount(host: &str, at: &str, mode: &str) -> (r: String)
    ensures
        r@ == spec_mount(host@, at@, mode@),
{
    let mut r = owned(host);
    push_str(&mut r, ":");
    push_str(&mut r, at);
    push_str(&mut r, ":");
    push_str(&mut r, mode);
    r
}

/// Everything the HQ's own services are built from, assembled from the
/// frozen header, `nunki.yaml` and the stack fragment — never from the slot.
/// The project's own `services:`, `networks:` and `volumes:` blocks travel
/// beside it, verbatim, in the program around this crate.
#[derive(Debug, Clone, PartialEq, Eq)]
pub struct Plan {
    /// The session the project is registered under.
    pub session: String,
    pub slot: String,
    pub role: Role,
    /// The stack image for the agent container.
    pub image: String,
    /// The sidecar image.
    pub firewall_image: String,
    pub user: UserIds,
    /// The slot's tree on the host, and where it is mounted.
    pub tree: String,
    pub tree_at: String,
    /// The mission folder at the HQ, and where it is mounted.
    pub mission_dir: String,
    pub mission_dir_at: String,
    /// The stack's scripts, mounted read-only one file at a time:
    /// (host path, path in the container).
    pub stack_scripts: Vec<(String, String)>,
    /// Test credential files, on a system profile only.
    pub credentials: Vec<(String, String)>,
    /// The advisory database gate 8 reads, when the stack declares one.
    pub advisories: Option<(String, String)>,
    pub volumes: Vec<NamedVolume>,
    /// In key order.
    pub environment: Vec<(String, String)>,
    pub command: Vec<String>,
    pub perimeter: Perimeter,
}

/// What a plan must hold before anything is built from it: no credentials
/// on a mission profile, an allowlist that allows something, and absolute
/// paths where the engine mounts them.
pub open spec fn spec_plan_error(plan: Plan) -> Option<ComposeError> {
    if Profile::spec_of(plan.role) == Profile::Mission && plan.credentials@.len() > 0 {
        Some(ComposeError::CredentialsOnMissionProfile(plan.credentials@.len() as usize))
    } else if plan.perimeter.domains@.len() == 0 && plan.perimeter.addresses@.len() == 0 {
        Some(ComposeError::EmptyPerimeter)
    } else {
        None
    }
}

/// The first path of a plan that is not absolute, with what it is: the
/// slot tree, the mission folder, then each credential file.
pub open spec fn spec_first_relative(plan: Plan) -> Option<(Seq<char>, Seq<char>)> {
    if !is_absolute(plan.tree@) {
        Some(("the slot tree"@, plan.tree@))
    } else if !is_absolute(plan.mission_dir@) {
        Some(("the mission folder"@, plan.mission_dir@))
    } else {
        let k = crate::text::first_from(0, plan.credentials@.len() as int,
            |i: int| !is_absolute(plan.credentials@[i].0@));
        if k < plan.credentials@.len() {
            Some(("a credential file"@, plan.credentials@[k].0@))
        } else {
            None
        }
    }
}

/// Check a plan before building from it.
pub fn check_plan(plan: &Plan) -> (r: Result<(), ComposeError>)
    ensures
        match spec_plan_error(*plan) {
            Some(e) => r == Err::<(), ComposeError>(e),
            None => match spec_first_relative(*plan) {
                Some((what, path)) => r matches Err(ComposeError::RelativePath { what: w, path: p })
                    && w@ == what && p@ == path,
                None => r is Ok,
            },
        },
{
    if Profile::of(plan.role) == Profile::Mission && plan.credentials.len() > 0 {
        return Err(ComposeError::CredentialsOnMissionProfile(plan.credentials.len()));
    }
    if plan.perimeter.is_empty() {
        return Err(ComposeError::EmptyPerimeter);
    }
    absolute("the slot tree", plan.tree.as_str())?;
    absolute("the mission folder", plan.mission_dir.as_str())?;
    let ghost p = |i: int| !is_absolute(plan.credentials@[i].0@);
    let ghost n = plan.credentials@.len() as int;
    let mut i: usize = 0;
    while i < plan.credentials.len()
        invariant
            spec_plan_error(*plan) is None,
            is_absolute(plan.tree@),
            is_absolute(plan.mission_dir@),
            i <= plan.credentials@.len(),
            n == plan.credentials@.len(),
            p == (|i: int| !is_absolute(plan.credentials@[i].0@)),
            crate::text::first_from(0, n, p) == crate::text::first_from(i as int, n, p),
        decreases plan.credentials@.len() - i,
    {
        let r = absolute("a credential file", plan.credentials[i].0.as_str());
        if r.is_err() {
            assert(p(i as int));
            assert(crate::text::first_from(i as int, n, p) == i);
            return r;
        }
        proof {
            crate::text::lemma_first_from_skip(i as int, i + 1, n, p);
        }
        i += 1;
    }
    Ok(())
}

/// The sidecar's environment: the allowlist, comma-separated, in key order.
pub open spec fn firewall_environment(p: Perimeter) -> Seq<(Seq<char>, Seq<char>)> {
    seq![("HQ_ALLOW_ADDRESSES"@, join(views(p.addresses@), ","@)),
         ("HQ_ALLOW_DOMAINS"@, join(views(p.domains@), ","@))]
}

/// The sidecar: the only container with power, and the one that owns the
/// network namespace. Four capabilities in the container built to hold them
/// — to lay the rules, and for its resolver to drop to its own uid — and
/// none in the agent's.
pub fn firewall(plan: &Plan, attached: &[String]) -> (s: Service)
    ensures
        s.image@ == plan.firewall_image@,
        s.environment@.len() == 2,
        forall|i: int| 0 <= i < 2 ==> (#[trigger] s.environment@[i]).0@ == firewall_environment(plan.perimeter)[i].0
            && s.environment@[i].1@ == firewall_environment(plan.perimeter)[i].1,
        views(s.cap_drop@) == seq!["ALL"@],
        views(s.cap_add@) == seq!["NET_ADMIN"@, "NET_RAW"@, "SETUID"@, "SETGID"@],
        views(s.security_opt@) == seq!["no-new-privileges:true"@],
        views(s.networks@) == views(attached@),
        s.healthcheck matches Some(h) && views(h.test@) == seq!["CMD"@, "/usr/local/bin/fw-ready"@]
            && h.interval@ == "1s"@ && h.timeout@ == "2s"@ && h.retries == 30 && h.start_period@ == "1s"@,
        s.init == Some(true),
        s.restart matches Some(r) && r@ == "no"@,
        s.user is None && s.working_dir is None && s.network_mode is None && s.depends_on_healthy is None,
        s.volumes@.len() == 0 && s.tmpfs@.len() == 0 && s.command@.len() == 0,
{
    let mut environment: Vec<(String, String)> = Vec::new();
    environment.push((owned("HQ_ALLOW_ADDRESSES"), join_strings(plan.perimeter.addresses.as_slice(), ",")));
    environment.push((owned("HQ_ALLOW_DOMAINS"), join_strings(plan.perimeter.domains.as_slice(), ",")));
    let mut cap_drop: Vec<String> = Vec::new();
    cap_drop.push(owned("ALL"));
    let mut cap_add: Vec<String> = Vec::new();
    cap_add.push(owned("NET_ADMIN"));
    cap_add.push(owned("NET_RAW"));
    cap_add.push(owned("SETUID"));
    cap_add.push(owned("SETGID"));
    let mut security_opt: Vec<String> = Vec::new();
    security_opt.push(owned("no-new-privileges:true"));
    let mut networks: Vec<String> = Vec::new();
    crate::text::extend_strings(&mut networks, attached, 0);
    let mut test: Vec<String> = Vec::new();
    test.push(owned("CMD"));
    test.push(owned("/usr/local/bin/fw-ready"));
    proof {
        assert(views(cap_drop@) =~= seq!["ALL"@]);
        assert(views(cap_add@) =~= seq!["NET_ADMIN"@, "NET_RAW"@, "SETUID"@, "SETGID"@]);
        assert(views(security_opt@) =~= seq!["no-new-privileges:true"@]);
        assert(views(test@) =~= seq!["CMD"@, "/usr/local/bin/fw-ready"@]);
        assert(views(attached@).subrange(0, attached@.len() as int) =~= views(attached@));
        assert(views(networks@) =~= views(attached@));
    }
    Service {
        image: plan.firewall_image.clone(),
        user: None,
        working_dir: None,
        network_mode: None,
        cap_drop,
        cap_add,
        security_opt,
        networks,
        depends_on_healthy: None,
        healthcheck: Some(Healthcheck {
            test,
            interval: owned("1s"),
            timeout: owned("2s"),
            retries: 30,
            start_period: owned("1s"),
        }),
        volumes: Vec::new(),
        tmpfs: Vec::new(),
        environment,
        init: Some(true),
        restart: Some(owned("no")),
        command: Vec::new(),
    }
}

/// How the agent mounts the slot's tree: the security agent reads it and
/// never writes it.
pub open spec fn tree_mode(role: Role) -> Seq<char> {
    if role == Role::Security { "ro"@ } else { "rw"@ }
}

/// Bind mounts read-only, one per (host, container) pair.
pub open spec fn ro_mounts(pairs: Seq<(String, String)>) -> Seq<Seq<char>> {
    pairs.map_values(|p: (String, String)| spec_mount(p.0@, p.1@, "ro"@))
}

/// The agent's mounts: its tree; the mission folder read-only but for the
/// agent's own files; the stack's scripts, the credentials and the advisory
/// database read-only; then the named volumes.
pub open spec fn agent_volumes(plan: Plan) -> Seq<Seq<char>> {
    seq![spec_mount(plan.tree@, plan.tree_at@, tree_mode(plan.role)),
         spec_mount(plan.mission_dir@, plan.mission_dir_at@, "ro"@)]
        + agent_writable().map_values(|f: Seq<char>|
            spec_mount(path_join(plan.mission_dir@, f), path_join(plan.mission_dir_at@, f), "rw"@))
        + ro_mounts(plan.stack_scripts@)
        + ro_mounts(plan.credentials@)
        + match plan.advisories { Some((h, a)) => seq![spec_mount(h@, a@, "ro"@)], None => Seq::empty() }
        + plan.volumes@.map_values(|v: NamedVolume| v.name@ + ":"@ + v.at@)
}

fn push_ro_mounts(out: &mut Vec<String>, pairs: &Vec<(String, String)>)
    ensures
        views(final(out)@) == views(old(out)@) + ro_mounts(pairs@),
{
    let ghost start = views(out@);
    let mut i: usize = 0;
    while i < pairs.len()
        invariant
            i <= pairs@.len(),
            views(out@) == start + ro_mounts(pairs@.subrange(0, i as int)),
        decreases pairs@.len() - i,
    {
        let m = mount(pairs[i].0.as_str(), pairs[i].1.as_str(), "ro");
        let ghost before = views(out@);
        out.push(m);
        proof {
            assert(views(out@) =~= before.push(m@));
            assert(ro_mounts(pairs@.subrange(0, i + 1)) =~= ro_mounts(pairs@.subrange(0, i as int)).push(m@));
        }
        i += 1;
    }
    assert(pairs@.subrange(0, i as int) =~= pairs@);
}

/// The agent's tmpfs: its own runtime files, owned by it, dying with the
/// container.
pub open spec fn agent_tmpfs(user: UserIds) -> Seq<char> {
    "/run/hq:uid="@ + spec_decimal(user.uid as nat) + ",gid="@ + spec_decimal(user.gid as nat) + ",mode=0700"@
}

/// The agent: no capability, the human's uid, and no way to declare a
/// network of its own — it lives in the firewall's namespace, and starts only
/// once the firewall is healthy.
pub fn agent(plan: &Plan, dialect: &Dialect) -> (r: Result<Service, ComposeError>)
    requires
        bytes_end_on_char(plan.session@, 8),
    ensures
        match spec_project_name(plan.session@, plan.slot@) {
            Err(slot) => r matches Err(ComposeError::SlotName(s)) && s@ == slot,
            Ok(project) => r matches Ok(s) && {
                &&& s.image@ == plan.image@
                &&& s.user matches Some(u) && u@ == spec_decimal(plan.user.uid as nat) + ":"@ + spec_decimal(plan.user.gid as nat)
                &&& s.working_dir matches Some(w) && w@ == plan.tree_at@
                &&& s.network_mode matches Some(n) && n@ == dialect.spec_netns_ref(project, "firewall"@)
                &&& views(s.cap_drop@) == seq!["ALL"@]
                &&& s.cap_add@.len() == 0
                &&& views(s.security_opt@) == seq!["no-new-privileges:true"@]
                &&& s.networks@.len() == 0
                &&& s.depends_on_healthy matches Some(d) && d@ == "firewall"@
                &&& s.healthcheck is None
                &&& views(s.volumes@) == agent_volumes(*plan)
                &&& views(s.tmpfs@) == seq![agent_tmpfs(plan.user)]
                &&& s.environment@ == plan.environment@
                &&& s.init == Some(true)
                &&& s.restart matches Some(x) && x@ == "no"@
                &&& s.command@ == plan.command@
            },
        },
{
    let project = project_name(plan.session.as_str(), plan.slot.as_str())?;
    let mode = match plan.role {
        Role::Security => "ro",
        _ => "rw",
    };
    let mut volumes: Vec<String> = Vec::new();
    volumes.push(mount(plan.tree.as_str(), plan.tree_at.as_str(), mode));
    volumes.push(mount(plan.mission_dir.as_str(), plan.mission_dir_at.as_str(), "ro"));
    let files = agent_writable_names();
    let ghost head = views(volumes@);
    let ghost writable = agent_writable().map_values(|f: Seq<char>|
        spec_mount(path_join(plan.mission_dir@, f), path_join(plan.mission_dir_at@, f), "rw"@));
    let mut i: usize = 0;
    while i < files.len()
        invariant
            files@.len() == 4,
            forall|k: int| 0 <= k < 4 ==> (#[trigger] files@[k])@ == agent_writable()[k],
            writable == agent_writable().map_values(|f: Seq<char>|
                spec_mount(path_join(plan.mission_dir@, f), path_join(plan.mission_dir_at@, f), "rw"@)),
            i <= 4,
            views(volumes@) == head + writable.take(i as int),
        decreases 4 - i,
    {
        let host = join_path(plan.mission_dir.as_str(), files[i]);
        let at = join_path(plan.mission_dir_at.as_str(), files[i]);
        let m = mount(host.as_str(), at.as_str(), "rw");
        let ghost before = views(volumes@);
        volumes.push(m);
        proof {
            assert(m@ == writable[i as int]);
            assert(views(volumes@) =~= before.push(m@));
            assert(writable.take(i + 1) =~= writable.take(i as int).push(writable[i as int]));
        }
        i += 1;
    }
    assert(writable.take(4) =~= writable);
    push_ro_mounts(&mut volumes, &plan.stack_scripts);
    push_ro_mounts(&mut volumes, &plan.credentials);
    let ghost before_adv = views(volumes@);
    if let Some((h, a)) = &plan.advisories {
        volumes.push(mount(h.as_str(), a.as_str(), "ro"));
    }
    assert(views(volumes@) =~= before_adv + match plan.advisories {
        Some((h, a)) => seq![spec_mount(h@, a@, "ro"@)],
        None => Seq::empty(),
    });
    let ghost before_named = views(volumes@);
    let mut j: usize = 0;
    while j < plan.volumes.len()
        invariant
            j <= plan.volumes@.len(),
            views(volumes@) == before_named + plan.volumes@.subrange(0, j as int).map_values(|v: NamedVolume| v.name@ + ":"@ + v.at@),
        decreases plan.volumes@.len() - j,
    {
        let mut named = plan.volumes[j].name.clone();
        push_str(&mut named, ":");
        push_str(&mut named, plan.volumes[j].at.as_str());
        let ghost before = views(volumes@);
        volumes.push(named);
        proof {
            assert(views(volumes@) =~= before.push(named@));
            assert(plan.volumes@.subrange(0, j + 1).map_values(|v: NamedVolume| v.name@ + ":"@ + v.at@)
                =~= plan.volumes@.subrange(0, j as int).map_values(|v: NamedVolume| v.name@ + ":"@ + v.at@).push(named@));
        }
        j += 1;
    }
    assert(plan.volumes@.subrange(0, j as int) =~= plan.volumes@);
    let mut user = decimal(plan.user.uid as u64);
    push_str(&mut user, ":");
    push_str(&mut user, decimal(plan.user.gid as u64).as_str());
    let mut tmpfs_entry = owned("/run/hq:uid=");
    push_str(&mut tmpfs_entry, decimal(plan.user.uid as u64).as_str());
    push_str(&mut tmpfs_entry, ",gid=");
    push_str(&mut tmpfs_entry, decimal(plan.user.gid as u64).as_str());
    push_str(&mut tmpfs_entry, ",mode=0700");
    let mut tmpfs: Vec<String> = Vec::new();
    tmpfs.push(tmpfs_entry);
    let mut cap_drop: Vec<String> = Vec::new();
    cap_drop.push(owned("ALL"));
    let mut security_opt: Vec<String> = Vec::new();
    security_opt.push(owned("no-new-privileges:true"));
    proof {
        assert(views(cap_drop@) =~= seq!["ALL"@]);
        assert(views(security_opt@) =~= seq!["no-new-privileges:true"@]);
        assert(views(tmpfs@) =~= seq![agent_tmpfs(plan.user)]);
        assert(views(volumes@) =~= agent_volumes(*plan));
    }
    Ok(Service {
        image: plan.image.clone(),
        user: Some(user),
        working_dir: Some(plan.tree_at.clone()),
        network_mode: Some(dialect.netns_ref(project.as_str(), "firewall")),
        cap_drop,
        cap_add: Vec::new(),
        security_opt,
        networks: Vec::new(),
        depends_on_healthy: Some(owned("firewall")),
        healthcheck: None,
        volumes,
        tmpfs,
        environment: crate::text::clone_pairs(&plan.environment),
        init: Some(true),
        restart: Some(owned("no")),
        command: crate::text::clone_strings(&plan.command),
    })
}


/// A part of the project's own Compose file (its services, networks or
/// volumes) as far as merging it cares: absent, null, a mapping with these
/// keys, or something a mapping was expected in place of.
#[derive(Debug, Clone, PartialEq, Eq)]
pub enum Part {
    Absent,
    Null,
    Mapping(Vec<String>),
    Sequence,
    Scalar,
}

/// The networks the project declares, which the agent's services attach
/// to: none when the part is absent or null.
pub fn networks_of(part: &Part) -> (r: Result<Vec<String>, ComposeError>)
    ensures
        (part is Absent || part is Null) ==> (r matches Ok(v) && v@.len() == 0),
        part matches Part::Mapping(keys) ==> (r matches Ok(v) && views(v@) == views(keys@)),
        part is Sequence ==> (r matches Err(ComposeError::ProjectNetworksShape(w)) && w@ == "a sequence"@),
        part is Scalar ==> (r matches Err(ComposeError::ProjectNetworksShape(w)) && w@ == "a scalar"@),
{
    match part {
        Part::Absent | Part::Null => {
            let v: Vec<String> = Vec::new();
            assert(v@.len() == 0);
            let r: Result<Vec<String>, ComposeError> = Ok(v);
            assert(r matches Ok(v) && v@.len() == 0);
            r
        },
        Part::Mapping(keys) => Ok(crate::text::clone_strings(keys)),
        Part::Sequence => Err(ComposeError::ProjectNetworksShape(owned("a sequence"))),
        Part::Scalar => Err(ComposeError::ProjectNetworksShape(owned("a scalar"))),
    }
}

/// The first service the project declares under a name the HQ reserves.
pub open spec fn first_reserved(keys: Seq<Seq<char>>) -> Option<Seq<char>>
    decreases keys.len(),
{
    if keys.len() == 0 {
        None
    } else if keys[0] == FIREWALL_SERVICE@ || keys[0] == AGENT_SERVICE@ {
        Some(keys[0])
    } else {
        first_reserved(keys.drop_first())
    }
}

/// The services of a profile, by name: the firewall, the agent, then the
/// project's own, none of which may take a name the HQ reserves.
pub fn services_of(part: &Part) -> (r: Result<Vec<String>, ComposeError>)
    ensures
        (part is Absent || part is Null) ==> (r matches Ok(v) && views(v@) == seq![FIREWALL_SERVICE@, AGENT_SERVICE@]),
        part matches Part::Mapping(keys) ==> match first_reserved(views(keys@)) {
            Some(k) => r matches Err(ComposeError::ReservedService(n)) && n@ == k,
            None => r matches Ok(v) && views(v@) == seq![FIREWALL_SERVICE@, AGENT_SERVICE@] + views(keys@),
        },
        part is Sequence ==> (r matches Err(ComposeError::ProjectServicesShape(w)) && w@ == "a sequence"@),
        part is Scalar ==> (r matches Err(ComposeError::ProjectServicesShape(w)) && w@ == "a scalar"@),
{
    let mut names: Vec<String> = Vec::new();
    names.push(owned(FIREWALL_SERVICE));
    names.push(owned(AGENT_SERVICE));
    assert(views(names@) =~= seq![FIREWALL_SERVICE@, AGENT_SERVICE@]);
    match part {
        Part::Absent | Part::Null => Ok(names),
        Part::Sequence => Err(ComposeError::ProjectServicesShape(owned("a sequence"))),
        Part::Scalar => Err(ComposeError::ProjectServicesShape(owned("a scalar"))),
        Part::Mapping(keys) => {
            let ghost head = views(names@);
            let mut i: usize = 0;
            assert(views(keys@).subrange(0, keys@.len() as int) =~= views(keys@));
            assert(views(keys@).subrange(0, 0) =~= Seq::<Seq<char>>::empty());
            while i < keys.len()
                invariant
                    i <= keys@.len(),
                    *part == Part::Mapping(*keys),
                    head == seq![FIREWALL_SERVICE@, AGENT_SERVICE@],
                    views(names@) == head + views(keys@).subrange(0, i as int),
                    first_reserved(views(keys@)) == first_reserved(views(keys@).subrange(i as int, keys@.len() as int)),
                decreases keys@.len() - i,
            {
                let ghost rest = views(keys@).subrange(i as int, keys@.len() as int);
                assert(rest[0] == keys@[i as int]@);
                if str_eq(keys[i].as_str(), FIREWALL_SERVICE) || str_eq(keys[i].as_str(), AGENT_SERVICE) {
                    assert(first_reserved(rest) == Some(keys@[i as int]@));
                    return Err(ComposeError::ReservedService(keys[i].clone()));
                }
                assert(rest.drop_first() =~= views(keys@).subrange(i + 1, keys@.len() as int));
                let ghost before = views(names@);
                names.push(keys[i].clone());
                assert(views(names@) =~= before.push(keys@[i as int]@));
                i += 1;
                assert(views(keys@).subrange(0, i as int) =~= views(keys@).subrange(0, i - 1).push(keys@[i - 1]@));
            }
            assert(views(keys@).subrange(0, keys@.len() as int) =~= views(keys@));
            proof {
                assert(views(keys@).subrange(keys@.len() as int, keys@.len() as int) =~= Seq::<Seq<char>>::empty());
            }
            Ok(names)
        },
    }
}

/// The project's volumes merged after the HQ's own, in order: refused at
/// the first that takes a name already there or one under the slot's own
/// prefix, since the slot's build cache or the harness's sessions would be
/// handed to a service.
pub open spec fn merge_volumes(have: Seq<Seq<char>>, prefix: Seq<char>, keys: Seq<Seq<char>>) -> Result<Seq<Seq<char>>, Seq<char>>
    decreases keys.len(),
{
    if keys.len() == 0 {
        Ok(have)
    } else if have.contains(keys[0]) || crate::text::has_prefix(keys[0], prefix) {
        Err(keys[0])
    } else {
        merge_volumes(have.push(keys[0]), prefix, keys.drop_first())
    }
}

/// The named volumes of a profile: the HQ's own for the slot, then the
/// project's.
pub fn volumes_of(slot: &str, own: &[NamedVolume], part: &Part) -> (r: Result<Vec<String>, ComposeError>)
    ensures
        (part is Absent || part is Null) ==> (r matches Ok(v) && views(v@) == own@.map_values(|v: NamedVolume| v.name@)),
        part matches Part::Mapping(keys) ==> match merge_volumes(own@.map_values(|v: NamedVolume| v.name@), "nunki-"@ + slot@ + "-"@, views(keys@)) {
            Ok(all) => r matches Ok(v) && views(v@) == all,
            Err(k) => r matches Err(ComposeError::ReservedVolume(n)) && n@ == k,
        },
        part is Sequence ==> (r matches Err(ComposeError::ProjectVolumesShape(w)) && w@ == "a sequence"@),
        part is Scalar ==> (r matches Err(ComposeError::ProjectVolumesShape(w)) && w@ == "a scalar"@),
{
    let mut names: Vec<String> = Vec::new();
    let mut j: usize = 0;
    while j < own.len()
        invariant
            j <= own@.len(),
            views(names@) == own@.subrange(0, j as int).map_values(|v: NamedVolume| v.name@),
        decreases own@.len() - j,
    {
        let ghost before = views(names@);
        names.push(own[j].name.clone());
        assert(views(names@) =~= before.push(own@[j as int].name@));
        j += 1;
        assert(own@.subrange(0, j as int).map_values(|v: NamedVolume| v.name@)
            =~= own@.subrange(0, j - 1).map_values(|v: NamedVolume| v.name@).push(own@[j - 1].name@));
    }
    assert(own@.subrange(0, own@.len() as int) =~= own@);
    match part {
        Part::Absent | Part::Null => Ok(names),
        Part::Sequence => Err(ComposeError::ProjectVolumesShape(owned("a sequence"))),
        Part::Scalar => Err(ComposeError::ProjectVolumesShape(owned("a scalar"))),
        Part::Mapping(keys) => {
            let mut prefix = owned("nunki-");
            push_str(&mut prefix, slot);
            push_str(&mut prefix, "-");
            let ghost mine = own@.map_values(|v: NamedVolume| v.name@);
            let mut i: usize = 0;
            assert(views(keys@).subrange(0, keys@.len() as int) =~= views(keys@));
            while i < keys.len()
                invariant
                    i <= keys@.len(),
                    *part == Part::Mapping(*keys),
                    mine == own@.map_values(|v: NamedVolume| v.name@),
                    prefix@ == "nunki-"@ + slot@ + "-"@,
                    merge_volumes(mine, prefix@, views(keys@))
                        == merge_volumes(views(names@), prefix@, views(keys@).subrange(i as int, keys@.len() as int)),
                decreases keys@.len() - i,
            {
                let ghost rest = views(keys@).subrange(i as int, keys@.len() as int);
                assert(rest[0] == keys@[i as int]@);
                assert(rest.drop_first() =~= views(keys@).subrange(i + 1, keys@.len() as int));
                let k = keys[i].as_str();
                if crate::gate::contains_string(names.as_slice(), k) || crate::text::str_starts_with(k, prefix.as_str()) {
                    assert(merge_volumes(views(names@), prefix@, rest) == Err::<Seq<Seq<char>>, Seq<char>>(keys@[i as int]@));
                    return Err(ComposeError::ReservedVolume(keys[i].clone()));
                }
                let ghost before = views(names@);
                names.push(keys[i].clone());
                assert(views(names@) =~= before.push(keys@[i as int]@));
                i += 1;
            }
            proof {
                assert(views(keys@).subrange(keys@.len() as int, keys@.len() as int) =~= Seq::<Seq<char>>::empty());
                assert(views(keys@).subrange(0, keys@.len() as int) =~= views(keys@));
            }
            Ok(names)
        },
    }
}

} // verus!
