//! Re-framing a mission, and closing one.
//!
//! The header is never re-read during a mission: it was frozen when the
//! human validated the framing. So a `MISSION.md` edited behind the engine's
//! back changes nothing; `reframe` puts the framing back in front of the
//! human, says what would change, and re-freezes only when told to.
//! `archive` is what comes after the push. Loading and saving the state and
//! moving folders are the program's part; what each verb decides is here.

use vstd::prelude::*;
use crate::harness::Role;
use crate::mission::{Bounds, Header, Integration, Security, Service};
use crate::mission::flow::{Handover, Stage};
use crate::text::{
    debug_quoted, decimal, join, join_path, join_strings, owned, path_join, push_str, quoted, spec_decimal, str_eq,
    trim, trimmed, views,
};

verus! {

/// Why a lifecycle verb refused.
#[derive(Debug)]
pub enum LifecycleError {
    NotStarted(String),
    RunInProgress { mission: String, slot: String },
    NotFinished { mission: String, stage: Stage },
    AlreadyArchived(String),
    NoReason,
    NoChange,
    NotHandedOver { mission: String, stage: Stage },
    Io(String, String),
}

/// One thing the new framing changes.
#[derive(Debug, Clone, PartialEq, Eq)]
pub struct Change {
    pub what: String,
    pub from: String,
    pub to: String,
}

/// What `reframe` found, and whether it applied it.
#[derive(Debug, Clone, PartialEq, Eq)]
pub struct Reframed {
    pub changes: Vec<Change>,
    /// `false` when the human has not said to apply it yet.
    pub applied: bool,
}

/// What was archived, for the caller to print.
#[derive(Debug, Clone, PartialEq, Eq)]
pub struct Archived {
    pub id: String,
    pub at: String,
}

/// A list of texts, written as `["a", "b"]`.
pub open spec fn debug_list(items: Seq<Seq<char>>) -> Seq<char> {
    "["@ + join(items.map_values(|s: Seq<char>| debug_quoted(s)), ", "@) + "]"@
}

/// An optional number, written as `Some(5)` or `None`.
pub open spec fn debug_option(n: Option<nat>) -> Seq<char> {
    match n {
        Some(v) => "Some("@ + spec_decimal(v) + ")"@,
        None => "None"@,
    }
}

/// The bounds, written field by field.
pub open spec fn debug_bounds(b: Bounds) -> Seq<char> {
    "Bounds { max_volets: "@ + spec_decimal(b.max_volets as nat) + ", attempts_per_lot: "@
        + spec_decimal(b.attempts_per_lot as nat) + ", checkpoint_minutes: "@ + spec_decimal(b.checkpoint_minutes as nat)
        + ", check_minutes: "@ + spec_decimal(b.check_minutes as nat) + ", stall_checks: "@
        + spec_decimal(b.stall_checks as nat) + ", long_lot_hours: "@ + spec_decimal(b.long_lot_hours as nat)
        + ", mutation_minutes: "@ + spec_decimal(b.mutation_minutes as nat) + ", harness_wait_hours: "@
        + spec_decimal(b.harness_wait_hours as nat) + ", max_runs: "@ + debug_option(
        match b.max_runs { Some(v) => Some(v as nat), None => None },
    ) + ", max_tokens: "@ + debug_option(match b.max_tokens { Some(v) => Some(v as nat), None => None })
        + ", five_hour_stop_percent: "@ + spec_decimal(b.five_hour_stop_percent as nat) + ", weekly_stop_percent: "@
        + spec_decimal(b.weekly_stop_percent as nat) + " }"@
}

/// The security field, written as its variant.
pub open spec fn debug_security(s: Security) -> Seq<char> {
    match s {
        Security::Gates => "Gates"@,
        Security::Agent => "Agent"@,
    }
}

/// A service, written field by field.
pub open spec fn debug_service(s: Service) -> Seq<char> {
    "Service { name: "@ + debug_quoted(s.name@) + ", reach: "@ + debug_list(views(s.reach@)) + ", shared: "@
        + (if s.shared { "true"@ } else { "false"@ }) + " }"@
}

/// The integration field, written as its variant and fields; a declined
/// integration is the `None` the header's file names.
pub open spec fn debug_integration(i: Integration) -> Seq<char> {
    match i {
        Integration::Declined { reason } => "None { reason: "@ + debug_quoted(reason@) + " }"@,
        Integration::Services { services, wiring } => "Services { services: ["@ + join(
            services@.map_values(|s: Service| debug_service(s)),
            ", "@,
        ) + "], wiring: "@ + debug_list(views(wiring@)) + " }"@,
    }
}

fn option_text(n: Option<u64>) -> (r: String)
    ensures
        r@ == debug_option(match n { Some(v) => Some(v as nat), None => None }),
{
    match n {
        Some(v) => {
            let mut r = owned("Some(");
            push_str(&mut r, decimal(v).as_str());
            push_str(&mut r, ")");
            r
        },
        None => owned("None"),
    }
}

fn list_text(items: &Vec<String>) -> (r: String)
    ensures
        r@ == debug_list(views(items@)),
{
    let mut q: Vec<String> = Vec::new();
    let mut i: usize = 0;
    while i < items.len()
        invariant
            i <= items@.len(),
            views(q@) == views(items@).take(i as int).map_values(|s: Seq<char>| debug_quoted(s)),
        decreases items@.len() - i,
    {
        let ghost before = views(q@);
        q.push(quoted(items[i].as_str()));
        assert(views(q@) =~= before.push(debug_quoted(items@[i as int]@)));
        i += 1;
        assert(views(q@) =~= views(items@).take(i as int).map_values(|s: Seq<char>| debug_quoted(s)));
    }
    assert(views(items@).take(i as int) =~= views(items@));
    let mut r = owned("[");
    push_str(&mut r, join_strings(q.as_slice(), ", ").as_str());
    push_str(&mut r, "]");
    r
}

fn bounds_text(b: &Bounds) -> (r: String)
    ensures
        r@ == debug_bounds(*b),
{
    let mut r = owned("Bounds { max_volets: ");
    push_str(&mut r, decimal(b.max_volets as u64).as_str());
    push_str(&mut r, ", attempts_per_lot: ");
    push_str(&mut r, decimal(b.attempts_per_lot as u64).as_str());
    push_str(&mut r, ", checkpoint_minutes: ");
    push_str(&mut r, decimal(b.checkpoint_minutes as u64).as_str());
    push_str(&mut r, ", check_minutes: ");
    push_str(&mut r, decimal(b.check_minutes as u64).as_str());
    push_str(&mut r, ", stall_checks: ");
    push_str(&mut r, decimal(b.stall_checks as u64).as_str());
    push_str(&mut r, ", long_lot_hours: ");
    push_str(&mut r, decimal(b.long_lot_hours as u64).as_str());
    push_str(&mut r, ", mutation_minutes: ");
    push_str(&mut r, decimal(b.mutation_minutes as u64).as_str());
    push_str(&mut r, ", harness_wait_hours: ");
    push_str(&mut r, decimal(b.harness_wait_hours as u64).as_str());
    push_str(&mut r, ", max_runs: ");
    let runs = match b.max_runs { Some(v) => Some(v as u64), None => None };
    push_str(&mut r, option_text(runs).as_str());
    push_str(&mut r, ", max_tokens: ");
    push_str(&mut r, option_text(b.max_tokens).as_str());
    push_str(&mut r, ", five_hour_stop_percent: ");
    push_str(&mut r, decimal(b.five_hour_stop_percent as u64).as_str());
    push_str(&mut r, ", weekly_stop_percent: ");
    push_str(&mut r, decimal(b.weekly_stop_percent as u64).as_str());
    push_str(&mut r, " }");
    r
}

fn service_text(s: &Service) -> (r: String)
    ensures
        r@ == debug_service(*s),
{
    let mut r = owned("Service { name: ");
    push_str(&mut r, quoted(s.name.as_str()).as_str());
    push_str(&mut r, ", reach: ");
    push_str(&mut r, list_text(&s.reach).as_str());
    push_str(&mut r, ", shared: ");
    push_str(&mut r, if s.shared { "true" } else { "false" });
    push_str(&mut r, " }");
    r
}

fn integration_text(i: &Integration) -> (r: String)
    ensures
        r@ == debug_integration(*i),
{
    match i {
        Integration::Declined { reason } => {
            let mut r = owned("None { reason: ");
            push_str(&mut r, quoted(reason.as_str()).as_str());
            push_str(&mut r, " }");
            r
        },
        Integration::Services { services, wiring } => {
            let mut each: Vec<String> = Vec::new();
            let mut k: usize = 0;
            while k < services.len()
                invariant
                    k <= services@.len(),
                    views(each@) == services@.take(k as int).map_values(|s: Service| debug_service(s)),
                decreases services@.len() - k,
            {
                let ghost before = views(each@);
                each.push(service_text(&services[k]));
                assert(views(each@) =~= before.push(debug_service(services@[k as int])));
                k += 1;
                assert(views(each@) =~= services@.take(k as int).map_values(|s: Service| debug_service(s)));
            }
            assert(services@.take(k as int) =~= services@);
            let mut r = owned("Services { services: [");
            push_str(&mut r, join_strings(each.as_slice(), ", ").as_str());
            push_str(&mut r, "], wiring: ");
            push_str(&mut r, list_text(wiring).as_str());
            push_str(&mut r, " }");
            r
        },
    }
}

/// The lots, one after the other: `L1 title; L2 title`.
pub open spec fn lots_text(h: Header) -> Seq<char> {
    join(h.lots@.map_values(|l: crate::mission::Lot| l.id@ + " "@ + l.title@), "; "@)
}

fn lots_of(h: &Header) -> (r: String)
    ensures
        r@ == lots_text(*h),
{
    let mut each: Vec<String> = Vec::new();
    let mut k: usize = 0;
    while k < h.lots.len()
        invariant
            k <= h.lots@.len(),
            views(each@) == h.lots@.take(k as int).map_values(|l: crate::mission::Lot| l.id@ + " "@ + l.title@),
        decreases h.lots@.len() - k,
    {
        let ghost before = views(each@);
        let mut t = owned(h.lots[k].id.as_str());
        push_str(&mut t, " ");
        push_str(&mut t, h.lots[k].title.as_str());
        each.push(t);
        assert(views(each@) =~= before.push(h.lots@[k as int].id@ + " "@ + h.lots@[k as int].title@));
        k += 1;
        assert(views(each@) =~= h.lots@.take(k as int).map_values(|l: crate::mission::Lot| l.id@ + " "@ + l.title@));
    }
    assert(h.lots@.take(k as int) =~= h.lots@);
    join_strings(each.as_slice(), "; ")
}

/// An optional text, or a dash.
pub open spec fn or_dash(o: Option<Seq<char>>) -> Seq<char> {
    match o {
        Some(s) => s,
        None => "—"@,
    }
}

fn dash_of(o: &Option<String>) -> (r: String)
    ensures
        r@ == or_dash(crate::text::opt_view(*o)),
{
    match o {
        Some(s) => owned(s.as_str()),
        None => owned("—"),
    }
}

/// One field of the header, before and after.
pub struct Field {
    pub what: Seq<char>,
    pub from: Seq<char>,
    pub to: Seq<char>,
}

/// The header's fields, in the order a human reads a header, each as the
/// two framings write it.
pub open spec fn fields(a: Header, b: Header) -> Seq<Field> {
    seq![
        Field { what: "branch"@, from: a.branch@, to: b.branch@ },
        Field { what: "base"@, from: a.base@, to: b.base@ },
        Field { what: "lots"@, from: lots_text(a), to: lots_text(b) },
        Field { what: "integration"@, from: debug_integration(a.integration), to: debug_integration(b.integration) },
        Field { what: "security"@, from: debug_security(a.security), to: debug_security(b.security) },
        Field { what: "arbiter"@, from: or_dash(crate::text::opt_view(a.arbiter)), to: or_dash(crate::text::opt_view(b.arbiter)) },
        Field { what: "account"@, from: or_dash(crate::text::opt_view(a.account)), to: or_dash(crate::text::opt_view(b.account)) },
        Field { what: "model"@, from: or_dash(crate::text::opt_view(a.model)), to: or_dash(crate::text::opt_view(b.model)) },
        Field { what: "run"@, from: or_dash(crate::text::opt_view(a.run)), to: or_dash(crate::text::opt_view(b.run)) },
        Field { what: "bounds"@, from: debug_bounds(a.bounds), to: debug_bounds(b.bounds) },
    ]
}

/// The fields of `fs` whose two writings differ, in order.
pub open spec fn changed(fs: Seq<Field>) -> Seq<Field>
    decreases fs.len(),
{
    if fs.len() == 0 {
        fs
    } else if fs.last().from != fs.last().to {
        changed(fs.drop_last()).push(fs.last())
    } else {
        changed(fs.drop_last())
    }
}

/// A list of fields that all kept their value reports no change.
proof fn lemma_unchanged(fs: Seq<Field>)
    requires
        forall|i: int| 0 <= i < fs.len() ==> (#[trigger] fs[i]).from == fs[i].to,
    ensures
        changed(fs).len() == 0,
    decreases fs.len(),
{
    if fs.len() > 0 {
        assert forall|i: int| 0 <= i < fs.drop_last().len() implies (#[trigger] fs.drop_last()[i]).from == fs.drop_last()[i].to by {
            assert(fs.drop_last()[i] == fs[i]);
        }
        lemma_unchanged(fs.drop_last());
        assert(fs.last() == fs[fs.len() - 1]);
    }
}

/// Each reported change is a field whose value moved: a header compared
/// with itself reports nothing, whatever it holds.
pub proof fn law_no_difference_with_itself(h: Header)
    ensures
        changed(fields(h, h)).len() == 0,
{
    let fs = fields(h, h);
    assert forall|i: int| 0 <= i < fs.len() implies (#[trigger] fs[i]).from == fs[i].to by {}
    lemma_unchanged(fs);
}

/// The changes, as fields.
pub open spec fn change_fields(cs: Seq<Change>) -> Seq<Field> {
    cs.map_values(|c: Change| Field { what: c.what@, from: c.from@, to: c.to@ })
}

fn note(changes: &mut Vec<Change>, what: &str, from: String, to: String)
    ensures
        change_fields(final(changes)@) == if from@ != to@ {
            change_fields(old(changes)@).push(Field { what: what@, from: from@, to: to@ })
        } else {
            change_fields(old(changes)@)
        },
{
    if !str_eq(from.as_str(), to.as_str()) {
        let ghost before = change_fields(changes@);
        let ghost f = Field { what: what@, from: from@, to: to@ };
        changes.push(Change { what: owned(what), from, to });
        assert(change_fields(changes@) =~= before.push(f));
    }
}

/// What the two framings disagree about, in the order a human reads a
/// header: field by field rather than as a text diff, because what matters
/// is which decision moved.
#[verifier::rlimit(40)]
pub fn differences(frozen: &Header, fresh: &Header) -> (r: Vec<Change>)
    ensures
        change_fields(r@) == changed(fields(*frozen, *fresh)),
{
    let ghost fs = fields(*frozen, *fresh);
    let mut changes: Vec<Change> = Vec::new();
    assert(change_fields(changes@) =~= changed(fs.take(0)));
    note(&mut changes, "branch", owned(frozen.branch.as_str()), owned(fresh.branch.as_str()));
    assert(fs.take(1).drop_last() =~= fs.take(0));
    assert(change_fields(changes@) =~= changed(fs.take(1)));
    note(&mut changes, "base", owned(frozen.base.as_str()), owned(fresh.base.as_str()));
    assert(fs.take(2).drop_last() =~= fs.take(1));
    assert(change_fields(changes@) =~= changed(fs.take(2)));
    note(&mut changes, "lots", lots_of(frozen), lots_of(fresh));
    assert(fs.take(3).drop_last() =~= fs.take(2));
    assert(change_fields(changes@) =~= changed(fs.take(3)));
    note(&mut changes, "integration", integration_text(&frozen.integration), integration_text(&fresh.integration));
    assert(fs.take(4).drop_last() =~= fs.take(3));
    assert(change_fields(changes@) =~= changed(fs.take(4)));
    let sa = match frozen.security { Security::Gates => owned("Gates"), Security::Agent => owned("Agent") };
    let sb = match fresh.security { Security::Gates => owned("Gates"), Security::Agent => owned("Agent") };
    note(&mut changes, "security", sa, sb);
    assert(fs.take(5).drop_last() =~= fs.take(4));
    assert(change_fields(changes@) =~= changed(fs.take(5)));
    note(&mut changes, "arbiter", dash_of(&frozen.arbiter), dash_of(&fresh.arbiter));
    assert(fs.take(6).drop_last() =~= fs.take(5));
    assert(change_fields(changes@) =~= changed(fs.take(6)));
    note(&mut changes, "account", dash_of(&frozen.account), dash_of(&fresh.account));
    assert(fs.take(7).drop_last() =~= fs.take(6));
    assert(change_fields(changes@) =~= changed(fs.take(7)));
    note(&mut changes, "model", dash_of(&frozen.model), dash_of(&fresh.model));
    assert(fs.take(8).drop_last() =~= fs.take(7));
    assert(change_fields(changes@) =~= changed(fs.take(8)));
    note(&mut changes, "run", dash_of(&frozen.run), dash_of(&fresh.run));
    assert(fs.take(9).drop_last() =~= fs.take(8));
    assert(change_fields(changes@) =~= changed(fs.take(9)));
    note(&mut changes, "bounds", bounds_text(&frozen.bounds), bounds_text(&fresh.bounds));
    assert(fs.take(10).drop_last() =~= fs.take(9));
    assert(fs.take(10) =~= fs);
    changes
}

/// A role's name, as its variant is written.
pub open spec fn role_name(r: Role) -> Seq<char> {
    match r {
        Role::Coder => "Coder"@,
        Role::Integrator => "Integrator"@,
        Role::Security => "Security"@,
    }
}

/// A handover in one clause, for the record the agent reads.
pub open spec fn spec_what_stopped(h: Handover) -> Seq<char> {
    match h {
        Handover::LotAttemptsExhausted { lot, attempts } => lot@ + " failed "@ + spec_decimal(attempts as nat)
            + " attempt(s)"@,
        Handover::RoleAttemptsExhausted { role, attempts } => "the "@ + role_name(role) + " failed "@
            + spec_decimal(attempts as nat) + " attempt(s)"@,
        Handover::VoletsExhausted { causes } => spec_decimal(causes@.len()) + " return(s) to the coder were used"@,
        Handover::Abandoned { reason } => "it was called off ("@ + reason@ + ")"@,
    }
}

/// A handover in one clause, for the record the agent reads.
pub fn what_stopped(h: &Handover) -> (r: String)
    ensures
        r@ == spec_what_stopped(*h),
{
    match h {
        Handover::LotAttemptsExhausted { lot, attempts } => {
            let mut r = owned(lot.as_str());
            push_str(&mut r, " failed ");
            push_str(&mut r, decimal(*attempts as u64).as_str());
            push_str(&mut r, " attempt(s)");
            r
        },
        Handover::RoleAttemptsExhausted { role, attempts } => {
            let mut r = owned("the ");
            push_str(&mut r, match role { Role::Coder => "Coder", Role::Integrator => "Integrator", Role::Security => "Security" });
            push_str(&mut r, " failed ");
            push_str(&mut r, decimal(*attempts as u64).as_str());
            push_str(&mut r, " attempt(s)");
            r
        },
        Handover::VoletsExhausted { causes } => {
            let mut r = decimal(causes.len() as u64);
            push_str(&mut r, " return(s) to the coder were used");
            r
        },
        Handover::Abandoned { reason } => {
            let mut r = owned("it was called off (");
            push_str(&mut r, reason.as_str());
            push_str(&mut r, ")");
            r
        },
    }
}

/// Where archived missions go: `<hq>/archive`.
pub fn archive_dir(hq_root: &str) -> (r: String)
    ensures
        r@ == path_join(hq_root@, "archive"@),
{
    join_path(hq_root, "archive")
}

/// The two places a mission ends: verified, or handed back to the human and
/// left there. Archiving anything else would hide it rather than close it.
pub fn finished(stage: &Stage) -> (b: bool)
    ensures
        b == (stage is Verified || stage is AwaitingHuman),
{
    match stage {
        Stage::Verified | Stage::AwaitingHuman(_) => true,
        _ => false,
    }
}

/// What a verb that changes a mission's framing or its end refuses before
/// anything else: a mission with no state has not started, and one with a
/// run going cannot be touched under the agent inside it.
pub fn idle(id: &str, started: bool, slot: &str, running: bool) -> (r: Result<(), LifecycleError>)
    ensures
        !started ==> (r matches Err(LifecycleError::NotStarted(m)) && m@ == id@),
        started && running ==> (r matches Err(LifecycleError::RunInProgress { mission, slot: s }) && mission@ == id@
            && s@ == slot@),
        started && !running ==> r is Ok,
{
    if !started {
        return Err(LifecycleError::NotStarted(owned(id)));
    }
    if running {
        return Err(LifecycleError::RunInProgress { mission: owned(id), slot: owned(slot) });
    }
    Ok(())
}

/// The reason a mission is called off with, or the refusal: a mission
/// called off without a reason is a puzzle for whoever finds it later.
pub fn end_reason(why: &str) -> (r: Result<String, LifecycleError>)
    ensures
        trim(why@).len() == 0 ==> r matches Err(LifecycleError::NoReason),
        trim(why@).len() > 0 ==> (r matches Ok(w) && w@ == trim(why@)),
{
    let w = trimmed(why);
    if w.as_str().unicode_len() == 0 { Err(LifecycleError::NoReason) } else { Ok(w) }
}

/// What changed, for a retry, or the refusal: a retry that says nothing buys
/// the same handover a second time.
pub fn retry_reason(why: &str) -> (r: Result<String, LifecycleError>)
    ensures
        trim(why@).len() == 0 ==> r matches Err(LifecycleError::NoChange),
        trim(why@).len() > 0 ==> (r matches Ok(w) && w@ == trim(why@)),
{
    let w = trimmed(why);
    if w.as_str().unicode_len() == 0 { Err(LifecycleError::NoChange) } else { Ok(w) }
}

/// What `reframe` answers once the two framings are compared: the changes,
/// applied only when the human said so and there is something to apply.
pub fn reframed(changes: Vec<Change>, apply: bool) -> (r: Reframed)
    ensures
        r.changes@ == changes@,
        r.applied == (apply && changes@.len() > 0),
{
    let applied = apply && changes.len() > 0;
    Reframed { changes, applied }
}

} // verus!
