//! `hq verify <mission>`: one verb for a whole phase, because it is one
//! state machine. The coder's gates, then the integration mission, then the
//! security mission, each with its own gates, and the hand back to the human
//! for the push. It is resumable: the state is persisted at every transition.
//!
//! Playing the gates, launching runs and reading them back are the
//! program's part; what each answer means for the mission is decided here,
//! and the flow itself is `mission::flow`.

use vstd::prelude::*;
use crate::backoff::HarnessDown;
use crate::mission::flow::{moved, refusal, same_stage};
use crate::harness::{Fault, Outcome, Role};
use crate::mission::{Header, Lot, Verdict, VerdictFile};
use crate::mission::flow::{Event, Handover, Stage, Work};
use crate::text::{decimal, owned, push_str, spec_decimal, str_eq, trim, trimmed};

verus! {

/// One thing `verify` did, in the order it did it. The caller prints them;
/// the state file is what carries the mission forward.
#[derive(Debug, Clone, PartialEq, Eq)]
pub enum Step {
    /// The gates were played, and what they said.
    Gates { role: Role, report: Box<crate::gate::Report> },
    /// The flow moved.
    Moved { to: Stage },
    /// A role is owed a run, and it cannot be launched yet.
    NeedsRun { role: Role, why: String },
    /// A run was launched for this role, and `verify` returned.
    Launched { role: Role, application: String },
    /// A run was recorded and the engine could not be asked about it.
    Unreachable { role: Role, why: String },
    /// Every declared stage is green.
    Verified,
    /// The flow stopped and the human decides.
    AwaitingHuman(Handover),
    /// The mission is held, so no run was launched.
    Held { role: Role, who: String, date: String, reason: Option<String> },
    /// The subscription's window is past its threshold.
    Saving { role: Role, account: String, window: String, per_mille: u32, stop_at_percent: u32, until: String },
    /// The harness keeps failing, and nothing is launched before `until`.
    Waiting { role: Role, until: String, failures: u32, last: String },
    /// The security agent came back with findings.
    Findings { report: String, lifted: Vec<String> },
}

/// Why `verify` stopped short.
#[derive(Debug)]
pub enum VerifyError {
    NotStarted(String),
    RunInProgress { mission: String, slot: String },
    Gate(crate::gate::GateError),
    State(crate::state::StateError),
    Lock(crate::state::lock::LockError),
    Slot(crate::slot::SlotError),
    Git(crate::git::GitError),
    Followup(crate::followup::FollowupError),
    /// The subscription's measure could not be kept or read.
    Usage(String),
    Spared { mission: String, account: String, window: String, percent: String, until: String },
}

/// Which role the current stage belongs to, for the gates that role owes.
pub open spec fn spec_role_of(stage: Stage) -> Role {
    match stage {
        Stage::Integration { .. } => Role::Integrator,
        Stage::SecurityAgent { .. } => Role::Security,
        _ => Role::Coder,
    }
}

/// Which role the current stage belongs to.
pub fn role_of(stage: &Stage) -> (r: Role)
    ensures
        r == spec_role_of(*stage),
{
    match stage {
        Stage::Integration { .. } => Role::Integrator,
        Stage::SecurityAgent { .. } => Role::Security,
        _ => Role::Coder,
    }
}

/// What the coder is owed, in words: the lot by its identifier and title,
/// or the volet and its cause.
pub open spec fn spec_what_is_owed(work: Work, header: Header) -> Seq<char> {
    match work {
        Work::Lot(i) => if i < header.lots@.len() {
            "lot "@ + header.lots@[i as int].id@ + " — "@ + header.lots@[i as int].title@ + " is owed a run"@
        } else {
            "a lot is owed a run"@
        },
        Work::Volet { n, cause } => "volet "@ + spec_decimal(n as nat) + " is owed a run: "@ + cause@,
    }
}

/// What the coder is owed, in words.
pub fn what_is_owed(work: &Work, header: &Header) -> (r: String)
    ensures
        r@ == spec_what_is_owed(*work, *header),
{
    match work {
        Work::Lot(i) => if *i < header.lots.len() {
            let lot: &Lot = &header.lots[*i];
            let mut r = owned("lot ");
            push_str(&mut r, lot.id.as_str());
            push_str(&mut r, " — ");
            push_str(&mut r, lot.title.as_str());
            push_str(&mut r, " is owed a run");
            r
        } else {
            owned("a lot is owed a run")
        },
        Work::Volet { n, cause } => {
            let mut r = owned("volet ");
            push_str(&mut r, decimal(*n as u64).as_str());
            push_str(&mut r, " is owed a run: ");
            push_str(&mut r, cause.as_str());
            r
        },
    }
}

/// A role's name, as its variant is written.
pub open spec fn role_name(r: Role) -> Seq<char> {
    match r {
        Role::Coder => "Coder"@,
        Role::Integrator => "Integrator"@,
        Role::Security => "Security"@,
    }
}

fn role_text(r: Role) -> (s: &'static str)
    ensures
        s@ == role_name(r),
{
    match r {
        Role::Coder => "Coder",
        Role::Integrator => "Integrator",
        Role::Security => "Security",
    }
}

/// The verdict a finished run left, read: `text` is the file's content or
/// why it could not be read, `parsed` the file read as a verdict or why not.
/// An empty file, another role's verdict, or one on another commit is a run
/// that did not honour its contract.
pub open spec fn spec_read_verdict(
    path: Seq<char>,
    text: Result<Seq<char>, Seq<char>>,
    parsed: Result<VerdictFile, Seq<char>>,
    role: Role,
    head: Seq<char>,
) -> Result<VerdictFile, Seq<char>> {
    match text {
        Err(why) => Err(path + " could not be read: "@ + why),
        Ok(t) => if trim(t).len() == 0 {
            Err("the run finished and "@ + path + " is empty: a role concludes with its verdict"@)
        } else {
            match parsed {
                Err(why) => Err(path + " is not a verdict `hq` can read: "@ + why),
                Ok(file) => if file.role != role {
                    Err(path + " carries "@ + role_name(file.role) + "'s verdict, and this run was "@ + role_name(role)
                        + "'s"@)
                } else if file.head@ != head {
                    Err(path + " concludes on "@ + file.head@ + ", and the slot is on "@ + head
                        + " — a verdict is worth one commit and no other"@)
                } else {
                    Ok(file)
                },
            }
        },
    }
}

/// The verdict a finished run left, read and held to its role and commit.
pub fn read_verdict(path: &str, text: Result<String, String>, parsed: Result<VerdictFile, String>, role: Role, head: &str)
    -> (r: Result<VerdictFile, String>)
    ensures
        match (r, spec_read_verdict(
            path@,
            match text { Ok(t) => Ok(t@), Err(e) => Err(e@) },
            match parsed { Ok(f) => Ok(f), Err(e) => Err(e@) },
            role,
            head@,
        )) {
            (Ok(a), Ok(b)) => a == b,
            (Err(a), Err(b)) => a@ == b,
            _ => false,
        },
{
    let t = match text {
        Ok(t) => t,
        Err(why) => {
            let mut m = owned(path);
            push_str(&mut m, " could not be read: ");
            push_str(&mut m, why.as_str());
            return Err(m);
        },
    };
    if trimmed(t.as_str()).as_str().unicode_len() == 0 {
        let mut m = owned("the run finished and ");
        push_str(&mut m, path);
        push_str(&mut m, " is empty: a role concludes with its verdict");
        return Err(m);
    }
    let file = match parsed {
        Ok(f) => f,
        Err(why) => {
            let mut m = owned(path);
            push_str(&mut m, " is not a verdict `hq` can read: ");
            push_str(&mut m, why.as_str());
            return Err(m);
        },
    };
    if file.role != role {
        let mut m = owned(path);
        push_str(&mut m, " carries ");
        push_str(&mut m, role_text(file.role));
        push_str(&mut m, "'s verdict, and this run was ");
        push_str(&mut m, role_text(role));
        push_str(&mut m, "'s");
        return Err(m);
    }
    if !str_eq(file.head.as_str(), head) {
        let mut m = owned(path);
        push_str(&mut m, " concludes on ");
        push_str(&mut m, file.head.as_str());
        push_str(&mut m, ", and the slot is on ");
        push_str(&mut m, head);
        push_str(&mut m, " — a verdict is worth one commit and no other");
        return Err(m);
    }
    Ok(file)
}

/// The event a finished role run yields: its verdict when it finished on
/// its own and left a good one; a mission failure, which costs an attempt,
/// when it finished without; and the run's own ending otherwise, a harness
/// failure costing none.
pub fn concluded(outcome: Outcome, verdict: Result<VerdictFile, String>) -> (r: Event)
    ensures
        match outcome {
            Outcome::Finished(_) => match verdict {
                Ok(f) => r == Event::Verdict { verdict: f.verdict, report: f.report },
                Err(why) => r == Event::RunEnded { outcome: Outcome::MissionFailure(why), lot_done: false },
            },
            _ => r == Event::RunEnded { outcome, lot_done: false },
        },
{
    match outcome {
        Outcome::Finished(u) => match verdict {
            Ok(f) => Event::Verdict { verdict: f.verdict, report: f.report },
            Err(why) => Event::RunEnded { outcome: Outcome::MissionFailure(why), lot_done: false },
        },
        other => Event::RunEnded { outcome: other, lot_done: false },
    }
}

/// What is carried to the coder of an event: only a red verdict, since a
/// follow-up file that fills with green is one nobody reads.
pub fn carried(event: &Event) -> (r: Option<(Verdict, &String)>)
    ensures
        match *event {
            Event::Verdict { verdict, report } => if verdict == Verdict::Integrated || verdict == Verdict::Clear {
                r is None
            } else {
                r matches Some((v, t)) && v == verdict && *t == report
            },
            _ => r is None,
        },
{
    match event {
        Event::Verdict { verdict, report } => if verdict.is_green() { None } else { Some((*verdict, report)) },
        _ => None,
    }
}

/// A run ended for the account's window costs no attempt, whatever it left:
/// the flow reads its ending as a harness cause. A verdict it wrote before
/// its turn ended still stands. `spared` is the account, the window and how
/// far it was used, with the usage already written as a percent.
pub fn spare_event(spared: Option<(&str, &str, &str)>, event: Event) -> (r: Event)
    ensures
        match (spared, event) {
            (Some((account, window, percent)), Event::RunEnded { .. }) => r matches Event::RunEnded {
                outcome: Outcome::HarnessFailure(f),
                lot_done,
            } && !lot_done && !f.authentication && f.why@ == "hq ended the turn: account "@ + account@ + "'s "@ + window@
                + " was at "@ + percent@ + "%"@,
            _ => r == event,
        },
{
    match (spared, event) {
        (Some((account, window, percent)), Event::RunEnded { .. }) => {
            let mut why = owned("hq ended the turn: account ");
            push_str(&mut why, account);
            push_str(&mut why, "'s ");
            push_str(&mut why, window);
            push_str(&mut why, " was at ");
            push_str(&mut why, percent);
            push_str(&mut why, "%");
            Event::RunEnded { outcome: Outcome::HarnessFailure(Fault::transient(why)), lot_done: false }
        },
        (_, event) => event,
    }
}

/// What the cap says, once a mission has spent `runs` runs and `tokens`
/// tokens: a mission past its cap is held between two runs, never in one.
pub open spec fn spec_over_cap(runs: u32, tokens: u64, max_runs: Option<u32>, max_tokens: Option<u64>, id: Seq<char>) -> Option<Seq<char>> {
    let raise = "raise it in the mission's header, then `hq mission reframe "@ + id + " --yes` and `hq mission resume "@
        + id + "`"@;
    if max_runs matches Some(m) && runs >= m {
        Some("the mission has spent "@ + spec_decimal(runs as nat) + " run(s), and its cap is "@
            + spec_decimal(max_runs->0 as nat) + " (`max_runs`) — "@ + raise)
    } else if max_tokens matches Some(m) && tokens >= m {
        Some("the mission has spent "@ + spec_decimal(tokens as nat) + " tokens, and its cap is "@
            + spec_decimal(max_tokens->0 as nat) + " (`max_tokens`, the four kinds summed) — "@ + raise)
    } else {
        None
    }
}

/// Why the mission is held for its cap, if it is past it.
pub fn over_cap(runs: u32, tokens: u64, max_runs: Option<u32>, max_tokens: Option<u64>, id: &str) -> (r: Option<String>)
    ensures
        match (r, spec_over_cap(runs, tokens, max_runs, max_tokens, id@)) {
            (Some(a), Some(b)) => a@ == b,
            (None, None) => true,
            _ => false,
        },
{
    let mut raise = owned("raise it in the mission's header, then `hq mission reframe ");
    push_str(&mut raise, id);
    push_str(&mut raise, " --yes` and `hq mission resume ");
    push_str(&mut raise, id);
    push_str(&mut raise, "`");
    match max_runs {
        Some(m) => if runs >= m {
            let mut w = owned("the mission has spent ");
            push_str(&mut w, decimal(runs as u64).as_str());
            push_str(&mut w, " run(s), and its cap is ");
            push_str(&mut w, decimal(m as u64).as_str());
            push_str(&mut w, " (`max_runs`) — ");
            push_str(&mut w, raise.as_str());
            return Some(w);
        },
        None => {},
    }
    match max_tokens {
        Some(m) => if tokens >= m {
            let mut w = owned("the mission has spent ");
            push_str(&mut w, decimal(tokens).as_str());
            push_str(&mut w, " tokens, and its cap is ");
            push_str(&mut w, decimal(m).as_str());
            push_str(&mut w, " (`max_tokens`, the four kinds summed) — ");
            push_str(&mut w, raise.as_str());
            return Some(w);
        },
        None => {},
    }
    None
}

/// The step a launch site answers with while the harness is waited out, or
/// nothing when a run may be launched now.
pub fn waiting(down: Option<&HarnessDown>, role: Role, now: u64) -> (r: Option<Step>)
    ensures
        match down {
            None => r is None,
            Some(d) => if now >= d.not_before {
                r is None
            } else {
                r matches Some(Step::Waiting { role: r2, until, failures, last }) && r2 == role
                    && until@ == crate::state::spec_rfc3339(d.not_before as nat) && failures == d.failures
                    && last@ == d.last@
            },
        },
{
    let d = match down {
        Some(d) => d,
        None => return None,
    };
    if crate::backoff::due(Some(d), now) {
        return None;
    }
    Some(Step::Waiting { role, until: crate::state::rfc3339(d.not_before), failures: d.failures, last: owned(d.last.as_str()) })
}

/// What a run recorded for the current stage means before any gate: one
/// still going is refused, unless the account's window made it end its turn
/// (`spared`: the account, the window, the usage as a percent, and when the
/// window resets); one that is not going lets `verify` proceed.
pub fn while_running(id: &str, slot: &str, running: bool, spared: Option<(String, String, String, String)>) -> (r: Result<(), VerifyError>)
    ensures
        !running ==> r is Ok,
        running && spared is None ==> (r matches Err(VerifyError::RunInProgress { mission, slot: s }) && mission@ == id@
            && s@ == slot@),
        running ==> match spared {
            Some((a, w, p, u)) => r matches Err(VerifyError::Spared { mission, account, window, percent, until })
                && mission@ == id@ && account == a && window == w && percent == p && until == u,
            None => true,
        },
{
    if !running {
        return Ok(());
    }
    match spared {
        Some((account, window, percent, until)) => Err(VerifyError::Spared { mission: owned(id), account, window, percent, until }),
        None => Err(VerifyError::RunInProgress { mission: owned(id), slot: owned(slot) }),
    }
}

/// The step a held mission answers with instead of a launch: who held it,
/// when, and why when the engine held it itself.
pub fn held(stopped: Option<(String, String, Option<String>)>, role: Role) -> (r: Option<Step>)
    ensures
        match stopped {
            None => r is None,
            Some((who, date, reason)) => r == Some(Step::Held { role, who, date, reason }),
        },
{
    match stopped {
        None => None,
        Some((who, date, reason)) => Some(Step::Held { role, who, date, reason }),
    }
}


// ---------------------------------------------------------------------
// `verify`, one step at a time: the program plays the gates, reads a run
// back, reads what a human lifted, saves, carries a red verdict to the
// coder and launches; what each stage decides, and in which order, is here.

/// Where a `verify` is.
#[derive(Debug, Clone, Copy, PartialEq, Eq, Structural)]
pub enum VerifyPhase {
    /// The stage is looked at.
    Deciding,
    /// The gates the stage owes are being played.
    Gating,
    /// The run recorded for the stage is being read back.
    Reading,
    /// What a human lifted on this commit is being read.
    Lifting,
    /// Nothing more this time.
    Done,
}

/// What `verify` knows of the mission and of this moment: the state kept
/// with it, what the program read beside it (the account's measure, the
/// time), what it has concluded, and what it did so far.
pub struct VerifyState {
    pub id: String,
    pub slot: String,
    pub flow: crate::mission::flow::Flow,
    /// The run recorded for the current stage.
    pub run: Option<crate::harness::RunHandle>,
    /// Who held the mission, when, and why when the engine held it.
    pub stopped: Option<(String, String, Option<String>)>,
    /// The harness's failures in a row.
    pub down: Option<HarnessDown>,
    /// The account, window and usage percent a run was ended for.
    pub spared: Option<(String, String, String)>,
    /// Runs and tokens the mission has spent.
    pub runs: u32,
    pub tokens: u64,
    /// The account the mission spends and its last measure, when known.
    pub measure: Option<(String, crate::consumption::Measure)>,
    /// Epoch seconds now.
    pub now: u64,
    /// Each role's conclusion: its verdict (none for the coder, whose green
    /// gates are its verdict) and the commit it concluded on.
    pub concluded: Vec<(Role, Option<Verdict>, String)>,
    pub phase: VerifyPhase,
    /// What `verify` did, in order.
    pub steps: Vec<Step>,
}

/// How a recorded run came back.
pub enum RunRead {
    /// The engine could not be asked, and nothing is decided on a silence.
    Unreachable(String),
    /// It ended: how, what it spent, its verdict file (`text`, and `parsed`
    /// as a verdict) at `path`, and the slot's commit.
    Ended {
        outcome: Outcome,
        usage: Option<crate::harness::Usage>,
        path: String,
        text: Result<String, String>,
        parsed: Result<VerdictFile, String>,
        head: String,
    },
}

/// What the program found, for the step that asked.
pub enum VerifyEvent {
    /// Look at the stage: the first event, and the one after a save.
    Look,
    /// The gates asked for, played, and the slot's commit.
    GatesPlayed { report: crate::gate::Report, head: String },
    RunRead(RunRead),
    /// What a human lifted on this commit, each as it is written.
    Lifted(Vec<String>),
}

/// What the program is to do next.
pub enum VerifyAction {
    /// Play the gates `role` owes at `phase`.
    PlayGates { role: Role, phase: crate::gate::Phase },
    /// Read back the run recorded for the stage.
    ReadBack { role: Role, handle: crate::harness::RunHandle },
    /// Read what a human lifted on this commit.
    ReadLifted,
    /// Carry a red verdict to the coder when there is one (the role, the
    /// verdict, its report, the commit), save the state, and look again.
    Save { carry: Option<(Role, Verdict, String, String)> },
    /// Launch `role`'s run on `lot`, attempt `attempt`, record it, save,
    /// and stop.
    Launch { role: Role, lot: String, attempt: u32 },
    /// Stop here, saving the state first when `save`.
    Stop { step: Step, save: bool },
}

/// Whether an event answers the phase's action.
pub open spec fn answers(phase: VerifyPhase, event: VerifyEvent) -> bool {
    match phase {
        VerifyPhase::Deciding => event is Look,
        VerifyPhase::Gating => event is GatesPlayed,
        VerifyPhase::Reading => event is RunRead,
        VerifyPhase::Lifting => event is Lifted,
        VerifyPhase::Done => false,
    }
}

impl VerifyState {
    /// What stepping needs: a flow that may be driven; a run read back only
    /// for a launching stage, with room to count one more run and one more
    /// harness failure, and to wait an hour.
    pub open spec fn well_formed(&self) -> bool {
        &&& self.flow.well_formed()
        &&& (self.phase is Reading ==> self.runs < u32::MAX && (self.down matches Some(d) ==> d.failures < u32::MAX)
            && self.now <= u64::MAX - 3600)
        &&& (self.phase is Reading ==> self.run is Some && (self.flow.stage is Integration || self.flow.stage is SecurityAgent))
        &&& (self.phase is Gating ==> (self.flow.stage is Coding || self.flow.stage is Gates))
        &&& (self.phase is Lifting ==> self.flow.stage is Findings)
    }
}

/// The stop line of a report: the first gate that keeps it from green.
pub open spec fn report_failure(r: crate::gate::Report) -> Option<Seq<char>> {
    crate::gate::first_said(r.outcomes@, |o: crate::gate::Outcome| crate::gate::stop_line(o))
}

/// The role each launching stage belongs to, and its lot's name.
pub open spec fn stage_lot(stage: Stage) -> Seq<char> {
    if stage is Integration { "integration"@ } else { "security"@ }
}

/// The event a run read back yields: its verdict, or its ending — a
/// harness cause when the account's window ended it (`spared`).
pub open spec fn read_back_event(ev: Event, spared: Option<(Seq<char>, Seq<char>, Seq<char>)>, outcome: Outcome,
    verdict: Result<VerdictFile, Seq<char>>) -> bool {
    match outcome {
        Outcome::Finished(_) => match verdict {
            Ok(f) => ev == Event::Verdict { verdict: f.verdict, report: f.report },
            Err(why) => match spared {
                None => ev matches Event::RunEnded { outcome: Outcome::MissionFailure(w), lot_done } && w@ == why && !lot_done,
                Some((a, w, p)) => spared_ending(ev, a, w, p),
            },
        },
        _ => match spared {
            None => ev == Event::RunEnded { outcome, lot_done: false },
            Some((a, w, p)) => spared_ending(ev, a, w, p),
        },
    }
}

/// A run ended for the account's window, as the flow is told it.
pub open spec fn spared_ending(ev: Event, account: Seq<char>, window: Seq<char>, percent: Seq<char>) -> bool {
    ev matches Event::RunEnded { outcome: Outcome::HarnessFailure(f), lot_done } && !lot_done && !f.authentication
        && f.why@ == "hq ended the turn: account "@ + account + "'s "@ + window + " was at "@ + percent + "%"@
}

/// The harness fault a run ended on, if it ended on one.
fn fault_of(outcome: &Outcome) -> (r: Option<Fault>)
    ensures
        match *outcome {
            Outcome::HarnessFailure(f) => r == Some(f),
            _ => r is None,
        },
{
    match outcome {
        Outcome::HarnessFailure(f) => Some(Fault { why: f.why.clone(), authentication: f.authentication }),
        _ => None,
    }
}

fn opt_strs(spared: &Option<(String, String, String)>) -> (r: Option<(&str, &str, &str)>)
    ensures
        match *spared {
            Some((a, w, p)) => r matches Some((x, y, z)) && x@ == a@ && y@ == w@ && z@ == p@,
            None => r is None,
        },
{
    match spared {
        Some((a, w, p)) => Some((a.as_str(), w.as_str(), p.as_str())),
        None => None,
    }
}

fn copy_held(stopped: &Option<(String, String, Option<String>)>) -> (r: Option<(String, String, Option<String>)>)
    ensures
        r == *stopped,
{
    match stopped {
        Some((w, d, why)) => Some((w.clone(), d.clone(), match why {
            Some(x) => Some(x.clone()),
            None => None,
        })),
        None => None,
    }
}


/// A window's name, as a human reads it.
pub open spec fn kind_name(k: crate::consumption::Kind) -> Seq<char> {
    match k {
        crate::consumption::Kind::FiveHour => "five-hour window"@,
        crate::consumption::Kind::Weekly => "weekly window"@,
    }
}

/// What a launching stage answers when no run is recorded, in this order:
/// a held mission launches nothing; nor does one waiting out the harness;
/// nor one whose account's window is past its threshold; a mission past its
/// cap is held, by the engine, and saved; otherwise the role's run is
/// launched.
pub open spec fn launch_site(s0: VerifyState, role: Role, attempt: u32, s: VerifyState, a: VerifyAction) -> bool {
    let bounds = s0.flow.header.bounds;
    if s0.stopped is Some {
        (s0.stopped matches Some((who, date, why))
            && a == VerifyAction::Stop { step: Step::Held { role, who, date, reason: why }, save: false }) && s == s0
    } else if (s0.down matches Some(d) && s0.now < d.not_before) {
        (a matches VerifyAction::Stop { step: Step::Waiting { role: r, until, failures, last }, save: false }
            && r == role && until@ == crate::state::spec_rfc3339(s0.down->0.not_before as nat)
            && failures == s0.down->0.failures && last@ == s0.down->0.last@) && s == s0
    } else if (s0.measure matches Some((account, m)) && crate::consumption::spec_over(m, bounds, s0.now) is Some) {
        (s0.measure matches Some((account, m)) && crate::consumption::spec_over(m, bounds, s0.now) matches Some(o)
            && a matches VerifyAction::Stop { step: Step::Saving { role: r, account: acc, window, per_mille, stop_at_percent, until }, save: false }
            && r == role && acc@ == account@ && window@ == kind_name(o.kind) && per_mille == o.per_mille
            && stop_at_percent == o.stop_at_percent && until@ == crate::state::spec_rfc3339(o.until as nat)) && s == s0
    } else if spec_over_cap(s0.runs, s0.tokens, bounds.max_runs, bounds.max_tokens, s0.id@) is Some {
        let why = spec_over_cap(s0.runs, s0.tokens, bounds.max_runs, bounds.max_tokens, s0.id@)->0;
        &&& a matches VerifyAction::Stop { step: Step::Held { role: r, who, date, reason }, save: true }
            && r == role && who@ == "hq"@ && date@ == crate::state::spec_rfc3339(s0.now as nat)
            && (reason matches Some(x) && x@ == why) && s.stopped == Some((who, date, reason))
        &&& s == VerifyState { stopped: s.stopped, phase: VerifyPhase::Done, ..s0 }
    } else {
        (a matches VerifyAction::Launch { role: r, lot, attempt: n } && r == role && lot@ == stage_lot(s0.flow.stage)
            && n == attempt) && s == VerifyState { phase: VerifyPhase::Done, ..s0 }
    }
}

fn at_launch_site(state: VerifyState, role: Role, attempt: u32) -> (r: (VerifyState, VerifyAction))
    requires
        state.flow.stage is Integration || state.flow.stage is SecurityAgent,
        role == spec_role_of(state.flow.stage),
    ensures
        launch_site(state, role, attempt, r.0, r.1),
        r.0.flow == state.flow && r.0.id == state.id && r.0.slot == state.slot,
{
    if let Some(step) = held(copy_held(&state.stopped), role) {
        return (state, VerifyAction::Stop { step, save: false });
    }
    let down = match &state.down {
        Some(d) => Some(d),
        None => None,
    };
    if let Some(step) = waiting(down, role, state.now) {
        return (state, VerifyAction::Stop { step, save: false });
    }
    if let Some((account, m)) = &state.measure {
        if let Some(o) = crate::consumption::over(m, &state.flow.header.bounds, state.now) {
            let step = Step::Saving {
                role,
                account: account.clone(),
                window: owned(o.kind.name()),
                per_mille: o.per_mille,
                stop_at_percent: o.stop_at_percent,
                until: crate::state::rfc3339(o.until),
            };
            return (state, VerifyAction::Stop { step, save: false });
        }
    }
    let bounds = &state.flow.header.bounds;
    if let Some(why) = over_cap(state.runs, state.tokens, bounds.max_runs, bounds.max_tokens, state.id.as_str()) {
        let who = owned("hq");
        let date = crate::state::rfc3339(state.now);
        let step = Step::Held { role, who: who.clone(), date: date.clone(), reason: Some(why.clone()) };
        proof {
            reveal_strlit("hq");
        }
        let stopped = Some((who, date, Some(why)));
        let s = VerifyState { stopped, phase: VerifyPhase::Done, ..state };
        return (s, VerifyAction::Stop { step, save: true });
    }
    let lot = if let Stage::Integration { .. } = &state.flow.stage { owned("integration") } else { owned("security") };
    (VerifyState { phase: VerifyPhase::Done, ..state }, VerifyAction::Launch { role, lot, attempt })
}


/// The coder's stage, once its gates were played: a red report is applied
/// as `GatesFailed`, and the coder is owed a run to fix it; a green one
/// leaves the stage as it is, and the coder is owed the work of its stage.
/// Either way, while the stage is still the coder's, `verify` stops there —
/// held if the mission is, else saying what is owed — and launches nothing.
pub open spec fn coding_gated(s0: VerifyState, report: crate::gate::Report, r: Result<(VerifyState, VerifyAction), VerifyError>) -> bool {
    match report_failure(report) {
        Some(reason) => match r {
            Err(e) => e is State && exists|w: String| w@ == reason && #[trigger] refusal(s0.flow, Event::GatesFailed { reason: w }) is Some,
            Ok((s, a)) => {
                &&& exists|w: String| w@ == reason && #[trigger] moved(s0.flow, Event::GatesFailed { reason: w }, s.flow)
                &&& if s.flow.stage is Coding {
                    &&& s.phase == VerifyPhase::Done
                    &&& match s0.stopped {
                        Some((who, date, why)) => a == VerifyAction::Stop {
                            step: Step::Held { role: Role::Coder, who, date, reason: why },
                            save: true,
                        },
                        None => a matches VerifyAction::Stop { step: Step::NeedsRun { role, why }, save: true }
                            && role == Role::Coder && why@ == "the gates were red, and fixing them is a run: "@ + reason,
                    }
                } else {
                    a == VerifyAction::Save { carry: None } && s.phase == VerifyPhase::Deciding
                }
            },
        },
        None => r matches Ok((s, a)) && s.flow == s0.flow && s.phase == VerifyPhase::Done && match s0.stopped {
            Some((who, date, why)) => a == VerifyAction::Stop { step: Step::Held { role: Role::Coder, who, date, reason: why }, save: false },
            None => a matches VerifyAction::Stop { step: Step::NeedsRun { role, why }, save: false } && role == Role::Coder
                && (s0.flow.stage matches Stage::Coding { work, .. } && why@ == spec_what_is_owed(work, s0.flow.header)),
        },
    }
}

/// The final gates, played: red is applied as `GatesFailed`; green records
/// the coder's conclusion on the commit, then applies `GatesPassed`. Either
/// way the state is saved and the next stage looked at.
pub open spec fn final_gated(s0: VerifyState, report: crate::gate::Report, head: Seq<char>,
    r: Result<(VerifyState, VerifyAction), VerifyError>) -> bool {
    match report_failure(report) {
        Some(reason) => match r {
            Err(e) => e is State && exists|w: String| w@ == reason && #[trigger] refusal(s0.flow, Event::GatesFailed { reason: w }) is Some,
            Ok((s, a)) => (exists|w: String| w@ == reason && #[trigger] moved(s0.flow, Event::GatesFailed { reason: w }, s.flow))
                && s.concluded@ == s0.concluded@ && a == VerifyAction::Save { carry: None } && s.phase == VerifyPhase::Deciding,
        },
        None => match r {
            Err(e) => e is State && refusal(s0.flow, Event::GatesPassed) is Some,
            Ok((s, a)) => moved(s0.flow, Event::GatesPassed, s.flow) && s.concluded@.len() == s0.concluded@.len() + 1
                && s.concluded@.drop_last() == s0.concluded@
                && (s.concluded@.last() matches (role, v, h) && role == Role::Coder && v is None && h@ == head)
                && a == VerifyAction::Save { carry: None } && s.phase == VerifyPhase::Deciding,
        },
    }
}

/// Tokens added without overflowing: a count that would pass the largest
/// value stays there.
pub open spec fn sat(a: int, b: int) -> u64 {
    if a + b > u64::MAX { u64::MAX } else { (a + b) as u64 }
}

/// What a usage adds to the tokens spent.
pub open spec fn usage_total(u: Option<crate::harness::Usage>) -> u64 {
    match u {
        Some(u) => sat(u.input_tokens as int, u.output_tokens as int),
        None => 0,
    }
}

/// A red verdict's carry to the coder, or none.
pub open spec fn carry_of(ev: Event, role: Role, head: Seq<char>, carry: Option<(Role, Verdict, String, String)>) -> bool {
    match ev {
        Event::Verdict { verdict, report } => if verdict == Verdict::Integrated || verdict == Verdict::Clear {
            carry is None
        } else {
            carry matches Some((r, v, rep, h)) && r == role && v == verdict && rep == report && h@ == head
        },
        _ => carry is None,
    }
}

/// A run of a launching stage, read back: an engine that cannot be asked
/// stops `verify` with nothing decided. An ended run counts one more run
/// and what it spent; its harness fault, unless the account's window ended
/// it, is counted toward the harness's wait (any other ending clears it);
/// its event — its verdict, or its ending — is applied, a red verdict
/// carried to the coder, a verdict recorded as the role's conclusion; the
/// run is forgotten, and the state saved.
pub open spec fn run_read(s0: VerifyState, read: RunRead, r: Result<(VerifyState, VerifyAction), VerifyError>) -> bool {
    let role = spec_role_of(s0.flow.stage);
    match read {
        RunRead::Unreachable(why) => r matches Ok((s, a)) && a == VerifyAction::Stop { step: Step::Unreachable { role, why }, save: false }
            && s == VerifyState { phase: VerifyPhase::Done, ..s0 },
        RunRead::Ended { outcome, usage, path, text, parsed, head } => {
            let verdict = spec_read_verdict(path@, match text { Ok(t) => Ok(t@), Err(e) => Err(e@) },
                match parsed { Ok(f) => Ok(f), Err(e) => Err(e@) }, role, head@);
            let spared = match s0.spared { Some((a, w, p)) => Some((a@, w@, p@)), None => None };
            let fault = if s0.spared is Some { None } else { match outcome { Outcome::HarnessFailure(f) => Some(f), _ => None } };
            match r {
                Err(e) => e is State,
                Ok((s, a)) => {
                    &&& exists|ev: Event| read_back_event(ev, spared, outcome, verdict) && #[trigger] moved(s0.flow, ev, s.flow)
                        && (a matches VerifyAction::Save { carry } && carry_of(ev, role, head@, carry))
                        && (ev matches Event::Verdict { verdict: v, .. } ==> s.concluded@ == s0.concluded@.push(
                            (role, Some(v), s.concluded@.last().2)) && s.concluded@.last().2@ == head@)
                        && (!(ev is Verdict) ==> s.concluded@ == s0.concluded@)
                    &&& s.run is None && s.spared is None && s.phase == VerifyPhase::Deciding
                    &&& s.runs == s0.runs + 1 && s.tokens == sat(s0.tokens as int, usage_total(usage) as int)
                    &&& match fault {
                        None => s.down is None && s.stopped == s0.stopped,
                        Some(f) => s.down matches Some(d) && d.last@ == f.why@ && d.failures == match s0.down {
                            Some(p) => p.failures + 1,
                            None => 1,
                        } && (f.authentication ==> (s.stopped matches Some((who, _, _)) && who@ == "hq"@)),
                    }
                },
            }
        },
    }
}


fn copy_handle(h: &crate::harness::RunHandle) -> (r: crate::harness::RunHandle)
    ensures
        r == *h,
{
    crate::harness::RunHandle {
        session: crate::harness::SessionId(h.session.0.clone()),
        container: h.container.clone(),
        pid: h.pid,
        log: h.log.clone(),
    }
}

fn after_coding_gates(state: VerifyState, report: crate::gate::Report) -> (r: Result<(VerifyState, VerifyAction), VerifyError>)
    requires
        state.flow.well_formed(),
        state.flow.stage is Coding,
    ensures
        coding_gated(state, report, r),
        r matches Ok((s, _)) ==> s.flow.well_formed() && s.id == state.id && s.slot == state.slot,
{
    let failure = report.failure();
    let ghost s0 = state;
    let mut st = state;
    let owed_green = match &st.flow.stage {
        Stage::Coding { work, .. } => what_is_owed(work, &st.flow.header),
        _ => owned(""),
    };
    st.steps.push(Step::Gates { role: Role::Coder, report: Box::new(report) });
    match failure {
        Some(reason) => {
            let mut owed = owned("the gates were red, and fixing them is a run: ");
            push_str(&mut owed, reason.as_str());
            let ghost w = reason;
            let ev = Event::GatesFailed { reason };
            match st.flow.advance(ev) {
                Err(e) => {
                    assert(refusal(s0.flow, Event::GatesFailed { reason: w }) is Some);
                    return Err(VerifyError::State(crate::state::StateError::Flow(e)));
                },
                Ok(stage) => {
                    st.steps.push(Step::Moved { to: stage });
                },
            }
            assert(moved(s0.flow, Event::GatesFailed { reason: w }, st.flow));
            if let Stage::Coding { .. } = &st.flow.stage {
                let step = match held(copy_held(&st.stopped), Role::Coder) {
                    Some(h) => h,
                    None => Step::NeedsRun { role: Role::Coder, why: owed },
                };
                return Ok((VerifyState { phase: VerifyPhase::Done, ..st }, VerifyAction::Stop { step, save: true }));
            }
            Ok((VerifyState { phase: VerifyPhase::Deciding, ..st }, VerifyAction::Save { carry: None }))
        },
        None => {
            let step = match held(copy_held(&st.stopped), Role::Coder) {
                Some(h) => h,
                None => Step::NeedsRun { role: Role::Coder, why: owed_green },
            };
            Ok((VerifyState { phase: VerifyPhase::Done, ..st }, VerifyAction::Stop { step, save: false }))
        },
    }
}

fn after_final_gates(state: VerifyState, report: crate::gate::Report, head: String) -> (r: Result<(VerifyState, VerifyAction), VerifyError>)
    requires
        state.flow.well_formed(),
    ensures
        final_gated(state, report, head@, r),
        r matches Ok((s, _)) ==> s.flow.well_formed() && s.id == state.id && s.slot == state.slot,
{
    let failure = report.failure();
    let ghost s0 = state;
    let mut st = state;
    st.steps.push(Step::Gates { role: Role::Coder, report: Box::new(report) });
    match failure {
        Some(reason) => {
            let ghost w = reason;
            match st.flow.advance(Event::GatesFailed { reason }) {
                Err(e) => {
                    assert(refusal(s0.flow, Event::GatesFailed { reason: w }) is Some);
                    return Err(VerifyError::State(crate::state::StateError::Flow(e)));
                },
                Ok(stage) => st.steps.push(Step::Moved { to: stage }),
            }
            assert(moved(s0.flow, Event::GatesFailed { reason: w }, st.flow));
        },
        None => {
            st.concluded.push((Role::Coder, None, head));
            match st.flow.advance(Event::GatesPassed) {
                Err(e) => return Err(VerifyError::State(crate::state::StateError::Flow(e))),
                Ok(stage) => st.steps.push(Step::Moved { to: stage }),
            }
            assert(st.concluded@.drop_last() =~= s0.concluded@);
        },
    }
    Ok((VerifyState { phase: VerifyPhase::Deciding, ..st }, VerifyAction::Save { carry: None }))
}

fn after_read(state: VerifyState, read: RunRead) -> (r: Result<(VerifyState, VerifyAction), VerifyError>)
    requires
        state.well_formed(),
        state.phase is Reading,
    ensures
        run_read(state, read, r),
        r matches Ok((s, _)) ==> s.flow.well_formed() && s.id == state.id && s.slot == state.slot,
{
    let role = role_of(&state.flow.stage);
    let ghost s0 = state;
    match read {
        RunRead::Unreachable(why) => Ok((VerifyState { phase: VerifyPhase::Done, ..state },
            VerifyAction::Stop { step: Step::Unreachable { role, why }, save: false })),
        RunRead::Ended { outcome, usage, path, text, parsed, head } => {
            let ghost o0 = outcome;
            let ghost tg = text;
            let ghost pg = parsed;
            let ghost verdict_view = spec_read_verdict(path@, match tg { Ok(t) => Ok(t@), Err(e) => Err(e@) },
                match pg { Ok(f) => Ok(f), Err(e) => Err(e@) }, role, head@);
            let spared = state.spared;
            let runs = state.runs + 1;
            let spent = match usage {
                Some(u) => u.input_tokens.saturating_add(u.output_tokens),
                None => 0,
            };
            let tokens = state.tokens.saturating_add(spent);
            let fault = if spared.is_some() { None } else { fault_of(&outcome) };
            let mut down = state.down;
            let mut stopped = state.stopped;
            match fault {
                None => {
                    down = None;
                },
                Some(f) => {
                    let previous = match &down {
                        Some(d) => Some(d),
                        None => None,
                    };
                    let (record, next) = crate::backoff::after(previous, &f, state.now, state.flow.header.bounds.harness_wait_hours);
                    down = Some(record);
                    if let crate::backoff::Next::Human { why } = next {
                        stopped = Some((owned("hq"), crate::state::rfc3339(state.now), Some(why)));
                        proof {
                            reveal_strlit("hq");
                        }
                    }
                },
            }
            let verdict = read_verdict(path.as_str(), text, parsed, role, head.as_str());
            let ev0 = concluded(outcome, verdict);
            let ev = spare_event(opt_strs(&spared), ev0);
            let ghost evg = ev;
            let mut concluded_list = state.concluded;
            let carry = match &ev {
                Event::Verdict { verdict, report } => {
                    concluded_list.push((role, Some(*verdict), head.clone()));
                    if verdict.is_green() {
                        None
                    } else {
                        Some((role, *verdict, report.clone(), head.clone()))
                    }
                },
                _ => None,
            };
            let mut flow = state.flow;
            let mut steps = state.steps;
            match flow.advance(ev) {
                Err(e) => return Err(VerifyError::State(crate::state::StateError::Flow(e))),
                Ok(stage) => steps.push(Step::Moved { to: stage }),
            }
            assert(read_back_event(evg, match s0.spared { Some((a, w, p)) => Some((a@, w@, p@)), None => None }, o0, verdict_view));
            assert(moved(s0.flow, evg, flow));
            let s = VerifyState {
                id: state.id,
                slot: state.slot,
                flow,
                run: None,
                stopped,
                down,
                spared: None,
                runs,
                tokens,
                measure: state.measure,
                now: state.now,
                concluded: concluded_list,
                phase: VerifyPhase::Deciding,
                steps,
            };
            Ok((s, VerifyAction::Save { carry }))
        },
    }
}


/// What looking at a stage asks for: the coder's gates after its runs, or
/// the final gates; for a launching stage, reading back its recorded run,
/// or — with none — the launch site's answer; for findings, what a human
/// lifted on this commit; a stage waiting on the human, or the end of the
/// phase, stops `verify` there.
pub open spec fn decided(s0: VerifyState, r: Result<(VerifyState, VerifyAction), VerifyError>) -> bool {
    match s0.flow.stage {
        Stage::Coding { .. } => r == Ok::<(VerifyState, VerifyAction), VerifyError>((VerifyState { phase: VerifyPhase::Gating, ..s0 },
            VerifyAction::PlayGates { role: Role::Coder, phase: crate::gate::Phase::AfterRun })),
        Stage::Gates => r == Ok::<(VerifyState, VerifyAction), VerifyError>((VerifyState { phase: VerifyPhase::Gating, ..s0 },
            VerifyAction::PlayGates { role: Role::Coder, phase: crate::gate::Phase::Final })),
        Stage::Integration { attempt } => launching(s0, Role::Integrator, attempt, r),
        Stage::SecurityAgent { attempt } => launching(s0, Role::Security, attempt, r),
        Stage::Findings { .. } => r == Ok::<(VerifyState, VerifyAction), VerifyError>((VerifyState { phase: VerifyPhase::Lifting, ..s0 },
            VerifyAction::ReadLifted)),
        Stage::AwaitingHuman(_) => r matches Ok((s, VerifyAction::Stop { step: Step::AwaitingHuman(h), save: false }))
            && same_stage(Stage::AwaitingHuman(h), s0.flow.stage) && s == VerifyState { phase: VerifyPhase::Done, ..s0 },
        Stage::Verified => r == Ok::<(VerifyState, VerifyAction), VerifyError>((VerifyState { phase: VerifyPhase::Done, ..s0 },
            VerifyAction::Stop { step: Step::Verified, save: false })),
    }
}

/// A launching stage, looked at: its recorded run is read back; with none,
/// the launch site answers.
pub open spec fn launching(s0: VerifyState, role: Role, attempt: u32, r: Result<(VerifyState, VerifyAction), VerifyError>) -> bool {
    match s0.run {
        Some(h) => r == Ok::<(VerifyState, VerifyAction), VerifyError>((VerifyState { phase: VerifyPhase::Reading, ..s0 },
            VerifyAction::ReadBack { role, handle: h })),
        None => r matches Ok((s, a)) && launch_site(s0, role, attempt, s, a),
    }
}

fn decide(state: VerifyState) -> (r: Result<(VerifyState, VerifyAction), VerifyError>)
    ensures
        decided(state, r),
        r matches Ok((s, _)) ==> s.flow == state.flow && s.id == state.id && s.slot == state.slot,
{
    match &state.flow.stage {
        Stage::Coding { .. } => Ok((VerifyState { phase: VerifyPhase::Gating, ..state },
            VerifyAction::PlayGates { role: Role::Coder, phase: crate::gate::Phase::AfterRun })),
        Stage::Gates => Ok((VerifyState { phase: VerifyPhase::Gating, ..state },
            VerifyAction::PlayGates { role: Role::Coder, phase: crate::gate::Phase::Final })),
        Stage::Integration { attempt } | Stage::SecurityAgent { attempt } => {
            let attempt = *attempt;
            let role = role_of(&state.flow.stage);
            match &state.run {
                Some(h) => {
                    let handle = copy_handle(h);
                    Ok((VerifyState { phase: VerifyPhase::Reading, ..state }, VerifyAction::ReadBack { role, handle }))
                },
                None => Ok(at_launch_site(state, role, attempt)),
            }
        },
        Stage::Findings { .. } => Ok((VerifyState { phase: VerifyPhase::Lifting, ..state }, VerifyAction::ReadLifted)),
        Stage::AwaitingHuman(_) => {
            let h = match crate::mission::flow::copy_stage(&state.flow.stage) {
                Stage::AwaitingHuman(h) => h,
                _ => Handover::Abandoned { reason: owned("") },
            };
            Ok((VerifyState { phase: VerifyPhase::Done, ..state }, VerifyAction::Stop { step: Step::AwaitingHuman(h), save: false }))
        },
        Stage::Verified => Ok((VerifyState { phase: VerifyPhase::Done, ..state }, VerifyAction::Stop { step: Step::Verified, save: false })),
    }
}

/// One step of `verify`: from where it is and what the program found,
/// either why it stops short or where it is next and what the program does
/// next. Looking at a stage decides what it asks for ([`decided`]); the
/// coder's gates ([`coding_gated`]), the final gates ([`final_gated`]) and
/// a run read back ([`run_read`]) each say what follows; findings stop
/// `verify` with the report and what a human lifted on this commit.
pub fn verify_step(state: VerifyState, event: VerifyEvent) -> (r: Result<(VerifyState, VerifyAction), VerifyError>)
    requires
        state.well_formed(),
        answers(state.phase, event),
    ensures
        r matches Ok((s, _)) ==> s.flow.well_formed() && s.id == state.id && s.slot == state.slot,
        state.phase is Deciding ==> decided(state, r),
        state.phase is Gating && state.flow.stage is Coding ==> (event matches VerifyEvent::GatesPlayed { report, .. }
            && coding_gated(state, report, r)),
        state.phase is Gating && state.flow.stage is Gates ==> (event matches VerifyEvent::GatesPlayed { report, head }
            && final_gated(state, report, head@, r)),
        state.phase is Reading ==> (event matches VerifyEvent::RunRead(read) && run_read(state, read, r)),
        state.phase is Lifting ==> (event matches VerifyEvent::Lifted(lifted) && state.flow.stage matches Stage::Findings { report }
            && r matches Ok((s, VerifyAction::Stop { step: Step::Findings { report: rep, lifted: l }, save: false }))
            && rep == report && l == lifted && s == VerifyState { phase: VerifyPhase::Done, ..state }),
{
    match event {
        VerifyEvent::Look => decide(state),
        VerifyEvent::GatesPlayed { report, head } => {
            if let Stage::Coding { .. } = &state.flow.stage {
                after_coding_gates(state, report)
            } else {
                after_final_gates(state, report, head)
            }
        },
        VerifyEvent::RunRead(read) => after_read(state, read),
        VerifyEvent::Lifted(lifted) => {
            let report = match &state.flow.stage {
                Stage::Findings { report } => report.clone(),
                _ => owned(""),
            };
            Ok((VerifyState { phase: VerifyPhase::Done, ..state }, VerifyAction::Stop { step: Step::Findings { report, lifted }, save: false }))
        },
    }
}


/// The cap holds a mission exactly as far as it was spent: with no run cap,
/// or one not reached, the mission is held for its tokens exactly when it
/// has spent at least its token cap — more tokens never lift a hold, and
/// fewer never make one; a reached run cap holds it whatever the tokens.
pub proof fn law_cap(runs: u32, tokens: u64, max_runs: Option<u32>, max_tokens: Option<u64>, id: Seq<char>)
    ensures
        (max_runs is None || runs < max_runs->0) ==> match max_tokens {
            Some(m) => (spec_over_cap(runs, tokens, max_runs, max_tokens, id) is Some) == (tokens >= m),
            None => spec_over_cap(runs, tokens, max_runs, max_tokens, id) is None,
        },
        (max_runs matches Some(m) && runs >= m) ==> spec_over_cap(runs, tokens, max_runs, max_tokens, id) is Some,
        forall|more: u64| tokens <= more && spec_over_cap(runs, tokens, max_runs, max_tokens, id) is Some
            ==> #[trigger] spec_over_cap(runs, more, max_runs, max_tokens, id) is Some,
{
}

} // verus!
