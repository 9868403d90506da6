//! The flow of a mission, as a state machine.
//!
//! The HQ holds the wheel: it launches the coder, then — according to the
//! mission's shape — the integrator, then the security agent; a red verdict
//! goes back to the coder as a "volet", bounded; harness failures replay
//! without counting. This module decides transitions only. It launches
//! nothing and reads no file: the engine feeds it [`Event`]s derived from the
//! harness, the journal and the gates, and acts on the [`Stage`] it returns.

use vstd::prelude::*;
use crate::harness::{Outcome, Role};
use crate::mission::{Header, Integration, Security, Verdict};
use crate::text::{clone_strings, decimal, owned, push_str, spec_decimal, views};

verus! {

/// Which piece of work a coder run is for.
#[derive(Debug, Clone, PartialEq, Eq)]
pub enum Work {
    /// A planned lot, by index into the header's list.
    Lot(usize),
    /// A return to the coder after a red verdict; `n` starts at 1.
    Volet { n: u32, cause: String },
}

/// Why the flow stopped and handed over to the human.
#[derive(Debug, Clone, PartialEq, Eq)]
pub enum Handover {
    /// A lot failed `attempts_per_lot` times.
    LotAttemptsExhausted { lot: String, attempts: u32 },
    /// A role failed its own mission `attempts_per_lot` times.
    RoleAttemptsExhausted { role: Role, attempts: u32 },
    /// `max_volets` returns to the coder were used; the verdicts are listed.
    VoletsExhausted { causes: Vec<String> },
    /// The human called it off before it was verified, and said why.
    Abandoned { reason: String },
}

/// Where the mission is.
#[derive(Debug, Clone, PartialEq, Eq)]
pub enum Stage {
    /// A coder run is due or running.
    Coding { work: Work, attempt: u32 },
    /// The final gates and the mechanical security gates are due.
    Gates,
    /// The integration mission is due or running.
    Integration { attempt: u32 },
    /// The security agent mission is due or running.
    SecurityAgent { attempt: u32 },
    /// The security agent returned `FINDINGS`: the HQ iterates or the human
    /// lifts the findings.
    Findings { report: String },
    /// Stopped; the human decides.
    AwaitingHuman(Handover),
    /// Every declared stage is green: ready for human validation and push.
    Verified,
}

/// What the engine observed.
#[derive(Debug, Clone, PartialEq, Eq)]
pub enum Event {
    /// The current agent run ended. For the coder, `lot_done` says whether
    /// the journal reports the lot finished and proved; it is ignored for
    /// the other roles.
    RunEnded { outcome: Outcome, lot_done: bool },
    /// A stall was observed, or a human killed the run. Counts as a failed
    /// attempt.
    Stalled { reason: String },
    /// The gates of the current stage passed.
    GatesPassed,
    /// A gate failed.
    GatesFailed { reason: String },
    /// The integrator or the security agent wrote its verdict.
    Verdict { verdict: Verdict, report: String },
    /// From `Findings`: the HQ chooses to iterate.
    Iterate,
    /// From `Findings`: the human lifted every finding.
    HumanAccepted,
    /// The human takes a mission back from a handover, saying what changed.
    Retried { because: String },
    /// The human called the mission off, with a reason.
    Ended { reason: String },
}

/// Why an event or a reframing was refused.
#[derive(Debug, Clone, PartialEq, Eq)]
pub enum FlowError {
    /// The event is not valid in the stage.
    InvalidTransition { stage: Stage, event: Event },
    /// A mission needs at least one lot.
    NoLots,
    /// The mission is working on lot `lot`, and the new framing declares only
    /// `lots` lot(s).
    LotGone { lot: String, lots: usize },
    /// The mission is already over.
    AlreadyOver,
    /// The human called this mission off: a retry never takes back a mission
    /// the human stopped.
    CalledOff(String),
    /// The mission handed over without recording which work it stopped on.
    NothingToResume,
}

/// The state machine. The engine persists it at every transition; its
/// fields are public so that the program around this crate can write and
/// read it back, and [`Flow::is_well_formed`] checks what it read.
#[derive(Debug, Clone, PartialEq, Eq)]
pub struct Flow {
    pub header: Header,
    pub stage: Stage,
    /// Returns to the coder used so far.
    pub volets: u32,
    /// The cause of every red verdict, in order.
    pub volet_causes: Vec<String>,
    /// Attempts used per coder work item, keyed by its label; a later entry
    /// for the same label replaces an earlier one.
    pub attempts: Vec<(String, u32)>,
    /// The coder work a retry picks up, kept from the moment the flow handed
    /// over. A label is what a human reads; this is what the machine resumes
    /// with.
    pub resume_with: Option<Work>,
}

/// The attempts recorded, as a map from label to attempt: a later entry for
/// a label replaces an earlier one.
pub open spec fn attempt_map(s: Seq<(String, u32)>) -> Map<Seq<char>, u32>
    decreases s.len(),
{
    if s.len() == 0 {
        Map::empty()
    } else {
        attempt_map(s.drop_last()).insert(s.last().0@, s.last().1)
    }
}

/// Two stages are the same; a list of causes is compared by its contents.
pub open spec fn same_stage(a: Stage, b: Stage) -> bool {
    match (a, b) {
        (Stage::AwaitingHuman(Handover::VoletsExhausted { causes: x }),
         Stage::AwaitingHuman(Handover::VoletsExhausted { causes: y })) => x@ == y@,
        _ => a == b,
    }
}

/// Two errors are the same; a stage is compared as [`same_stage`] does.
pub open spec fn same_error(a: FlowError, b: FlowError) -> bool {
    match (a, b) {
        (FlowError::InvalidTransition { stage: s1, event: e1 },
         FlowError::InvalidTransition { stage: s2, event: e2 }) => same_stage(s1, s2) && e1 == e2,
        _ => a == b,
    }
}

/// The pairs of stage and event the flow moves on, errors aside.
pub open spec fn accepts(stage: Stage, event: Event) -> bool {
    match (stage, event) {
        (Stage::Coding { .. }, Event::RunEnded { .. }) => true,
        (Stage::Coding { .. }, Event::Stalled { .. }) => true,
        (Stage::Coding { .. }, Event::GatesFailed { .. }) => true,
        (Stage::Gates, Event::GatesPassed) => true,
        (Stage::Gates, Event::GatesFailed { .. }) => true,
        (Stage::Integration { .. }, Event::RunEnded { .. }) => true,
        (Stage::Integration { .. }, Event::Stalled { .. }) => true,
        (Stage::Integration { .. }, Event::Verdict { verdict, .. }) =>
            verdict == Verdict::Integrated || verdict == Verdict::Broken,
        (Stage::SecurityAgent { .. }, Event::RunEnded { .. }) => true,
        (Stage::SecurityAgent { .. }, Event::Stalled { .. }) => true,
        (Stage::SecurityAgent { .. }, Event::Verdict { verdict, .. }) =>
            verdict == Verdict::Clear || verdict == Verdict::Findings,
        (Stage::Findings { .. }, Event::Iterate) => true,
        (Stage::Findings { .. }, Event::HumanAccepted) => true,
        _ => false,
    }
}

/// The error an event meets in a flow, if any.
pub open spec fn refusal(f: Flow, event: Event) -> Option<FlowError> {
    match (f.stage, event) {
        (Stage::AwaitingHuman(Handover::Abandoned { reason }), Event::Retried { .. }) =>
            Some(FlowError::CalledOff(reason)),
        (Stage::AwaitingHuman(Handover::RoleAttemptsExhausted { .. }), Event::Retried { .. }) => None,
        (Stage::AwaitingHuman(_), Event::Retried { .. }) =>
            if f.resume_with is None { Some(FlowError::NothingToResume) } else { None },
        (Stage::Verified, Event::Ended { .. }) => Some(FlowError::AlreadyOver),
        (Stage::AwaitingHuman(_), Event::Ended { .. }) => Some(FlowError::AlreadyOver),
        (_, Event::Ended { .. }) => None,
        (stage, event) => if accepts(stage, event) {
            None
        } else {
            Some(FlowError::InvalidTransition { stage, event })
        },
    }
}

/// The stage after the coder finished a piece of work: the next planned lot,
/// or the final gates.
pub open spec fn after_lot(h: Header, work: Work) -> Stage {
    match work {
        Work::Lot(i) => if i + 1 < h.lots@.len() {
            Stage::Coding { work: Work::Lot((i + 1) as usize), attempt: 1 }
        } else {
            Stage::Gates
        },
        Work::Volet { .. } => Stage::Gates,
    }
}

/// The stage after the final gates: what the mission's shape declares.
pub open spec fn after_gates(h: Header) -> Stage {
    if h.integration is Services {
        Stage::Integration { attempt: 1 }
    } else if h.security == Security::Agent {
        Stage::SecurityAgent { attempt: 1 }
    } else {
        Stage::Verified
    }
}

/// The stage after an `INTEGRATED` verdict.
pub open spec fn after_integration(h: Header) -> Stage {
    if h.security == Security::Agent {
        Stage::SecurityAgent { attempt: 1 }
    } else {
        Stage::Verified
    }
}

/// The stage a role's run is in.
pub open spec fn role_stage(role: Role, attempt: u32) -> Stage {
    if role == Role::Integrator {
        Stage::Integration { attempt }
    } else {
        Stage::SecurityAgent { attempt }
    }
}

/// Everything but the stage and the header is as it was.
pub open spec fn same_rest(a: Flow, b: Flow) -> bool {
    &&& a.volets == b.volets
    &&& a.volet_causes@ == b.volet_causes@
    &&& a.attempts@ == b.attempts@
    &&& a.resume_with == b.resume_with
}

/// One more attempt on the same coder work, or the human once the bound is
/// reached.
pub open spec fn retried_coder(b: Flow, work: Work, attempt: u32, a: Flow) -> bool {
    &&& a.volets == b.volets
    &&& a.volet_causes@ == b.volet_causes@
    &&& attempt_map(a.attempts@) == attempt_map(b.attempts@).insert(b.spec_label(work), attempt)
    &&& if attempt >= b.header.bounds.attempts_per_lot {
        &&& a.resume_with == Some(work)
        &&& a.stage matches Stage::AwaitingHuman(Handover::LotAttemptsExhausted { lot, attempts })
        &&& lot@ == b.spec_label(work)
        &&& attempts == attempt
    } else {
        &&& a.resume_with == b.resume_with
        &&& a.stage == Stage::Coding { work, attempt: (attempt + 1) as u32 }
    }
}

/// One more attempt for a role, or the human once the bound is reached.
pub open spec fn retried_role(b: Flow, role: Role, attempt: u32, a: Flow) -> bool {
    &&& same_rest(a, b)
    &&& if attempt >= b.header.bounds.attempts_per_lot {
        a.stage == Stage::AwaitingHuman(Handover::RoleAttemptsExhausted { role, attempts: attempt })
    } else {
        a.stage == role_stage(role, (attempt + 1) as u32)
    }
}

/// A role's run ended: a harness failure replays, a finished run waits for
/// its verdict, a mission failure costs an attempt.
pub open spec fn role_ended(b: Flow, role: Role, attempt: u32, outcome: Outcome, a: Flow) -> bool {
    match outcome {
        Outcome::MissionFailure(_) => retried_role(b, role, attempt, a),
        _ => a.stage == role_stage(role, attempt) && same_rest(a, b),
    }
}

/// A verdict that is not green sends the coder back, bounded by `max_volets`.
pub open spec fn opened_volet(b: Flow, cause: Seq<char>, a: Flow) -> bool {
    &&& a.attempts@ == b.attempts@
    &&& views(a.volet_causes@) == views(b.volet_causes@).push(cause)
    &&& if b.volets >= b.header.bounds.max_volets {
        &&& a.volets == b.volets
        &&& a.resume_with matches Some(Work::Volet { n, cause: c })
        &&& n == 1
        &&& c@ == cause
        &&& a.stage matches Stage::AwaitingHuman(Handover::VoletsExhausted { causes })
        &&& causes@ == a.volet_causes@
    } else {
        &&& a.volets == b.volets + 1
        &&& a.resume_with == b.resume_with
        &&& a.stage matches Stage::Coding { work: Work::Volet { n, cause: c }, attempt }
        &&& n == a.volets
        &&& c@ == cause
        &&& attempt == 1
    }
}

/// The human takes back a mission a bound stopped: the work it stopped on
/// starts again at attempt 1, a volet on its own number.
pub open spec fn resumed(b: Flow, a: Flow) -> bool {
    match b.resume_with {
        Some(work) => {
            &&& a.resume_with is None
            &&& a.volet_causes@ == b.volet_causes@
            &&& a.attempts@ == b.attempts@
            &&& a.stage == Stage::Coding { work, attempt: 1 }
            &&& a.volets == match work {
                Work::Volet { n, .. } => n,
                Work::Lot(_) => b.volets,
            }
        },
        None => false,
    }
}

/// What an accepted event does to the flow.
pub open spec fn moved(b: Flow, event: Event, a: Flow) -> bool {
    &&& a.header == b.header
    &&& match (b.stage, event) {
        (Stage::Coding { work, attempt }, Event::RunEnded { outcome, lot_done }) => match outcome {
            Outcome::HarnessFailure(_) => a.stage == b.stage && same_rest(a, b),
            Outcome::Finished(_) => if lot_done {
                a.stage == after_lot(b.header, work) && same_rest(a, b)
            } else {
                retried_coder(b, work, attempt, a)
            },
            Outcome::MissionFailure(_) => retried_coder(b, work, attempt, a),
        },
        (Stage::Coding { work, attempt }, Event::Stalled { .. }) => retried_coder(b, work, attempt, a),
        (Stage::Coding { work, attempt }, Event::GatesFailed { .. }) => retried_coder(b, work, attempt, a),
        (Stage::Gates, Event::GatesPassed) => a.stage == after_gates(b.header) && same_rest(a, b),
        (Stage::Gates, Event::GatesFailed { reason }) => opened_volet(b, "gate: "@ + reason@, a),
        (Stage::Integration { attempt }, Event::RunEnded { outcome, .. }) =>
            role_ended(b, Role::Integrator, attempt, outcome, a),
        (Stage::Integration { attempt }, Event::Stalled { .. }) =>
            retried_role(b, Role::Integrator, attempt, a),
        (Stage::Integration { .. }, Event::Verdict { verdict, report }) =>
            if verdict == Verdict::Integrated {
                a.stage == after_integration(b.header) && same_rest(a, b)
            } else {
                opened_volet(b, "integrator BROKEN: "@ + report@, a)
            },
        (Stage::SecurityAgent { attempt }, Event::RunEnded { outcome, .. }) =>
            role_ended(b, Role::Security, attempt, outcome, a),
        (Stage::SecurityAgent { attempt }, Event::Stalled { .. }) =>
            retried_role(b, Role::Security, attempt, a),
        (Stage::SecurityAgent { .. }, Event::Verdict { verdict, report }) =>
            if verdict == Verdict::Clear {
                a.stage == Stage::Verified && same_rest(a, b)
            } else {
                a.stage == (Stage::Findings { report }) && same_rest(a, b)
            },
        (Stage::Findings { report }, Event::Iterate) =>
            opened_volet(b, "security FINDINGS: "@ + report@, a),
        (Stage::Findings { .. }, Event::HumanAccepted) => a.stage == Stage::Verified && same_rest(a, b),
        (Stage::AwaitingHuman(Handover::RoleAttemptsExhausted { role, .. }), Event::Retried { .. }) =>
            a.stage == role_stage(role, 1) && same_rest(a, b),
        (Stage::AwaitingHuman(_), Event::Retried { .. }) => resumed(b, a),
        (_, Event::Ended { reason }) =>
            a.stage == Stage::AwaitingHuman(Handover::Abandoned { reason }) && same_rest(a, b),
        _ => false,
    }
}

/// The security agent runs after the integrator: a mission that declares
/// one, and whose integrator said `INTEGRATED`, goes to the security agent's
/// first attempt — never straight to verified; one that declares none is
/// verified there.
pub proof fn law_integrated_then_security(b: Flow, report: String, a: Flow)
    requires
        b.stage is Integration,
        moved(b, Event::Verdict { verdict: Verdict::Integrated, report }, a),
    ensures
        b.header.security == Security::Agent ==> a.stage == (Stage::SecurityAgent { attempt: 1 }),
        b.header.security != Security::Agent ==> a.stage == Stage::Verified,
        a.header == b.header && a.volets == b.volets && a.attempts@ == b.attempts@,
{
}

/// A mission is verified only as its shape allows: a step that lands on
/// `Verified` comes from a header that declares no security agent, from the
/// security agent's `CLEAR`, or from a human accepting the findings.
pub proof fn law_verified_only_as_declared(b: Flow, e: Event, a: Flow)
    requires
        moved(b, e, a),
        a.stage == Stage::Verified,
        b.stage != Stage::Verified,
    ensures
        b.header.security != Security::Agent
            || (b.stage is SecurityAgent && (e matches Event::Verdict { verdict, .. } && verdict == Verdict::Clear))
            || (b.stage is Findings && e is HumanAccepted),
{
}

fn copy_work(w: &Work) -> (r: Work)
    ensures
        r == *w,
{
    match w {
        Work::Lot(i) => Work::Lot(*i),
        Work::Volet { n, cause } => Work::Volet { n: *n, cause: cause.clone() },
    }
}

pub(crate) fn copy_stage(s: &Stage) -> (r: Stage)
    ensures
        same_stage(r, *s),
{
    match s {
        Stage::Coding { work, attempt } => Stage::Coding { work: copy_work(work), attempt: *attempt },
        Stage::Gates => Stage::Gates,
        Stage::Integration { attempt } => Stage::Integration { attempt: *attempt },
        Stage::SecurityAgent { attempt } => Stage::SecurityAgent { attempt: *attempt },
        Stage::Findings { report } => Stage::Findings { report: report.clone() },
        Stage::AwaitingHuman(h) => Stage::AwaitingHuman(match h {
            Handover::LotAttemptsExhausted { lot, attempts } =>
                Handover::LotAttemptsExhausted { lot: lot.clone(), attempts: *attempts },
            Handover::RoleAttemptsExhausted { role, attempts } =>
                Handover::RoleAttemptsExhausted { role: *role, attempts: *attempts },
            Handover::VoletsExhausted { causes } =>
                Handover::VoletsExhausted { causes: clone_strings(causes) },
            Handover::Abandoned { reason } => Handover::Abandoned { reason: reason.clone() },
        }),
        Stage::Verified => Stage::Verified,
    }
}

impl Flow {
    /// What the flow needs to move without a fault: at least one lot, and
    /// every lot it stands on or would resume with among them.
    pub open spec fn well_formed(&self) -> bool {
        &&& self.header.lots@.len() > 0
        &&& (self.stage matches Stage::Coding { work: Work::Lot(i), .. } ==> i < self.header.lots@.len())
        &&& (self.resume_with matches Some(Work::Lot(i)) ==> i < self.header.lots@.len())
        &&& !(self.stage matches Stage::AwaitingHuman(Handover::RoleAttemptsExhausted { role: Role::Coder, .. }))
    }

    /// Whether a flow read back from disk may be driven.
    pub fn is_well_formed(&self) -> (b: bool)
        ensures
            b == self.well_formed(),
    {
        let n = self.header.lots.len();
        if n == 0 {
            return false;
        }
        let on_lot = match &self.stage {
            Stage::Coding { work: Work::Lot(i), .. } => *i < n,
            Stage::AwaitingHuman(Handover::RoleAttemptsExhausted { role: Role::Coder, .. }) => false,
            _ => true,
        };
        let resumes = match &self.resume_with {
            Some(Work::Lot(i)) => *i < n,
            _ => true,
        };
        on_lot && resumes
    }

    /// What a piece of coder work is called.
    pub open spec fn spec_label(&self, work: Work) -> Seq<char> {
        match work {
            Work::Lot(i) => self.header.lots@[i as int].id@,
            Work::Volet { n, .. } => "volet-"@ + spec_decimal(n as nat),
        }
    }

    /// A new flow starts with the first lot, first attempt.
    pub fn new(header: Header) -> (r: Result<Flow, FlowError>)
        ensures
            header.lots@.len() == 0 ==> r == Err::<Flow, FlowError>(FlowError::NoLots),
            header.lots@.len() > 0 ==> (r matches Ok(f) && {
                &&& f.header == header
                &&& f.stage == Stage::Coding { work: Work::Lot(0), attempt: 1 }
                &&& f.volets == 0
                &&& f.volet_causes@.len() == 0
                &&& f.attempts@.len() == 0
                &&& f.resume_with is None
                &&& f.well_formed()
            }),
    {
        if header.lots.len() == 0 {
            return Err(FlowError::NoLots);
        }
        Ok(Flow {
            header,
            stage: Stage::Coding { work: Work::Lot(0), attempt: 1 },
            volets: 0,
            volet_causes: Vec::new(),
            attempts: Vec::new(),
            resume_with: None,
        })
    }

    pub fn stage(&self) -> (s: &Stage)
        ensures
            *s == self.stage,
    {
        &self.stage
    }

    pub fn header(&self) -> (h: &Header)
        ensures
            *h == self.header,
    {
        &self.header
    }

    /// Whether the work a retry would resume exists in a new framing.
    pub open spec fn resume_fits(&self, header: Header) -> bool {
        self.resume_with matches Some(Work::Lot(i)) ==> i < header.lots@.len()
    }

    /// Re-freeze the framing.
    ///
    /// Refused when the flow is standing on a lot the new framing does not
    /// have: re-numbering under a running mission would leave the state
    /// pointing at work nobody described. The caller makes sure the work a
    /// retry would resume is still described.
    pub fn reframe(&mut self, header: Header) -> (r: Result<(), FlowError>)
        requires
            old(self).well_formed(),
            old(self).resume_fits(header),
        ensures
            final(self).well_formed(),
            header.lots@.len() == 0 ==> r == Err::<(), FlowError>(FlowError::NoLots),
            header.lots@.len() > 0 && (old(self).stage matches Stage::Coding { work: Work::Lot(i), .. }
                && i >= header.lots@.len()) ==> (r matches Err(FlowError::LotGone { lot, lots })
                && lots == header.lots@.len()
                && lot@ == old(self).spec_label(old(self).stage->work)),
            r is Err ==> *final(self) == *old(self),
            r is Ok ==> header.lots@.len() > 0
                && !(old(self).stage matches Stage::Coding { work: Work::Lot(i), .. } && i >= header.lots@.len()),
            r is Ok ==> final(self).header == header && final(self).stage == old(self).stage
                && same_rest(*final(self), *old(self)),
    {
        if header.lots.len() == 0 {
            return Err(FlowError::NoLots);
        }
        if let Stage::Coding { work: Work::Lot(i), .. } = &self.stage {
            if *i >= header.lots.len() {
                return Err(FlowError::LotGone {
                    lot: self.header.lots[*i].id.clone(),
                    lots: header.lots.len(),
                });
            }
        }
        self.header = header;
        Ok(())
    }

    /// What a piece of coder work is called — in the run's prompt, in the
    /// journal's `Lot:` line, in the attempts' count.
    pub fn label(&self, work: &Work) -> (r: String)
        requires
            work matches Work::Lot(i) ==> i < self.header.lots@.len(),
        ensures
            r@ == self.spec_label(*work),
    {
        match work {
            Work::Lot(i) => self.header.lots[*i].id.clone(),
            Work::Volet { n, .. } => {
                let mut r = owned("volet-");
                push_str(&mut r, decimal(*n as u64).as_str());
                r
            },
        }
    }

    /// Returns to the coder used so far.
    pub fn volets(&self) -> (v: u32)
        ensures
            v == self.volets,
    {
        self.volets
    }

    /// Apply an event; returns the new stage. An event that makes no sense
    /// in the current stage is an error, never a silent no-op, and leaves the
    /// flow as it was.
    #[verifier::rlimit(50)]
    pub fn advance(&mut self, event: Event) -> (r: Result<Stage, FlowError>)
        requires
            old(self).well_formed(),
        ensures
            final(self).well_formed(),
            match refusal(*old(self), event) {
                Some(e) => r matches Err(got) && same_error(got, e) && *final(self) == *old(self),
                None => r matches Ok(s) && same_stage(s, final(self).stage)
                    && moved(*old(self), event, *final(self)),
            },
    {
        let ghost before = *self;
        let next: Stage = match event {
            Event::RunEnded { outcome, lot_done } => match &self.stage {
                Stage::Coding { work, attempt } => {
                    let work = copy_work(work);
                    let attempt = *attempt;
                    match outcome {
                        Outcome::HarnessFailure(_) => Stage::Coding { work, attempt },
                        Outcome::Finished(_) => if lot_done {
                            self.after_lot(&work)
                        } else {
                            self.retry_coder(work, attempt)
                        },
                        Outcome::MissionFailure(_) => self.retry_coder(work, attempt),
                    }
                },
                Stage::Integration { attempt } => {
                    let attempt = *attempt;
                    self.role_run_ended(Role::Integrator, attempt, &outcome)
                },
                Stage::SecurityAgent { attempt } => {
                    let attempt = *attempt;
                    self.role_run_ended(Role::Security, attempt, &outcome)
                },
                _ => {
                    return Err(FlowError::InvalidTransition {
                        stage: copy_stage(&self.stage),
                        event: Event::RunEnded { outcome, lot_done },
                    });
                },
            },
            Event::Stalled { reason } => match &self.stage {
                Stage::Coding { work, attempt } => {
                    let work = copy_work(work);
                    let attempt = *attempt;
                    self.retry_coder(work, attempt)
                },
                Stage::Integration { attempt } => {
                    let attempt = *attempt;
                    self.retry_role(Role::Integrator, attempt)
                },
                Stage::SecurityAgent { attempt } => {
                    let attempt = *attempt;
                    self.retry_role(Role::Security, attempt)
                },
                _ => {
                    return Err(FlowError::InvalidTransition {
                        stage: copy_stage(&self.stage),
                        event: Event::Stalled { reason },
                    });
                },
            },
            Event::GatesFailed { reason } => match &self.stage {
                Stage::Coding { work, attempt } => {
                    let work = copy_work(work);
                    let attempt = *attempt;
                    self.retry_coder(work, attempt)
                },
                Stage::Gates => {
                    let mut cause = owned("gate: ");
                    push_str(&mut cause, reason.as_str());
                    self.volet(cause)
                },
                _ => {
                    return Err(FlowError::InvalidTransition {
                        stage: copy_stage(&self.stage),
                        event: Event::GatesFailed { reason },
                    });
                },
            },
            Event::GatesPassed => match &self.stage {
                Stage::Gates => self.after_gates(),
                _ => {
                    return Err(FlowError::InvalidTransition {
                        stage: copy_stage(&self.stage),
                        event: Event::GatesPassed,
                    });
                },
            },
            Event::Verdict { verdict, report } => match (&self.stage, verdict) {
                (Stage::Integration { .. }, Verdict::Integrated) => self.after_integration(),
                (Stage::Integration { .. }, Verdict::Broken) => {
                    let mut cause = owned("integrator BROKEN: ");
                    push_str(&mut cause, report.as_str());
                    self.volet(cause)
                },
                (Stage::SecurityAgent { .. }, Verdict::Clear) => Stage::Verified,
                (Stage::SecurityAgent { .. }, Verdict::Findings) => Stage::Findings { report },
                _ => {
                    return Err(FlowError::InvalidTransition {
                        stage: copy_stage(&self.stage),
                        event: Event::Verdict { verdict, report },
                    });
                },
            },
            Event::Iterate => match &self.stage {
                Stage::Findings { report } => {
                    let mut cause = owned("security FINDINGS: ");
                    push_str(&mut cause, report.as_str());
                    self.volet(cause)
                },
                _ => {
                    return Err(FlowError::InvalidTransition {
                        stage: copy_stage(&self.stage),
                        event: Event::Iterate,
                    });
                },
            },
            Event::HumanAccepted => match &self.stage {
                Stage::Findings { .. } => Stage::Verified,
                _ => {
                    return Err(FlowError::InvalidTransition {
                        stage: copy_stage(&self.stage),
                        event: Event::HumanAccepted,
                    });
                },
            },
            Event::Retried { because } => match &self.stage {
                Stage::AwaitingHuman(Handover::Abandoned { reason }) => {
                    return Err(FlowError::CalledOff(reason.clone()));
                },
                Stage::AwaitingHuman(Handover::RoleAttemptsExhausted { role, .. }) => {
                    let role = *role;
                    self.role_stage(role, 1)
                },
                Stage::AwaitingHuman(_) => match &self.resume_with {
                    None => {
                        return Err(FlowError::NothingToResume);
                    },
                    Some(work) => {
                        let work = copy_work(work);
                        if let Work::Volet { n, .. } = &work {
                            self.volets = *n;
                        }
                        self.resume_with = None;
                        Stage::Coding { work, attempt: 1 }
                    },
                },
                _ => {
                    return Err(FlowError::InvalidTransition {
                        stage: copy_stage(&self.stage),
                        event: Event::Retried { because },
                    });
                },
            },
            Event::Ended { reason } => match &self.stage {
                Stage::Verified | Stage::AwaitingHuman(_) => {
                    return Err(FlowError::AlreadyOver);
                },
                _ => Stage::AwaitingHuman(Handover::Abandoned { reason }),
            },
        };
        let out = copy_stage(&next);
        self.stage = next;
        Ok(out)
    }

    /// The stage after the coder finished a piece of work.
    fn after_lot(&self, work: &Work) -> (s: Stage)
        requires
            work matches Work::Lot(i) ==> i < self.header.lots@.len(),
        ensures
            s == after_lot(self.header, *work),
            s matches Stage::Coding { work: Work::Lot(j), .. } ==> j < self.header.lots@.len(),
    {
        match work {
            Work::Lot(i) => if *i < self.header.lots.len() - 1 {
                Stage::Coding { work: Work::Lot(*i + 1), attempt: 1 }
            } else {
                Stage::Gates
            },
            Work::Volet { .. } => Stage::Gates,
        }
    }

    /// The stage after the final gates: what the mission's shape declares.
    fn after_gates(&self) -> (s: Stage)
        ensures
            s == after_gates(self.header),
    {
        if self.header.has_integration() {
            Stage::Integration { attempt: 1 }
        } else if self.header.has_security_agent() {
            Stage::SecurityAgent { attempt: 1 }
        } else {
            Stage::Verified
        }
    }

    fn after_integration(&self) -> (s: Stage)
        ensures
            s == after_integration(self.header),
    {
        if self.header.has_security_agent() {
            Stage::SecurityAgent { attempt: 1 }
        } else {
            Stage::Verified
        }
    }

    /// One more attempt on the same coder work, or the human once the bound
    /// is reached.
    fn retry_coder(&mut self, work: Work, attempt: u32) -> (s: Stage)
        requires
            work matches Work::Lot(i) ==> i < old(self).header.lots@.len(),
        ensures
            final(self).header == old(self).header,
            final(self).stage == old(self).stage,
            retried_coder(*old(self), work, attempt, Flow { stage: s, ..*final(self) }),
    {
        let label = self.label(&work);
        self.attempts.push((label.clone(), attempt));
        proof {
            assert(self.attempts@.drop_last() =~= old(self).attempts@);
        }
        if attempt >= self.header.bounds.attempts_per_lot {
            self.resume_with = Some(work);
            Stage::AwaitingHuman(Handover::LotAttemptsExhausted { lot: label, attempts: attempt })
        } else {
            Stage::Coding { work, attempt: attempt + 1 }
        }
    }

    fn role_run_ended(&mut self, role: Role, attempt: u32, outcome: &Outcome) -> (s: Stage)
        requires
            role != Role::Coder,
        ensures
            *final(self) == *old(self),
            role_ended(*old(self), role, attempt, *outcome, Flow { stage: s, ..*old(self) }),
    {
        match outcome {
            Outcome::HarnessFailure(_) => self.role_stage(role, attempt),
            Outcome::Finished(_) => self.role_stage(role, attempt),
            Outcome::MissionFailure(_) => self.retry_role(role, attempt),
        }
    }

    fn retry_role(&self, role: Role, attempt: u32) -> (s: Stage)
        requires
            role != Role::Coder,
        ensures
            retried_role(*self, role, attempt, Flow { stage: s, ..*self }),
            s matches Stage::AwaitingHuman(Handover::RoleAttemptsExhausted { role: r, .. }) ==> r != Role::Coder,
    {
        if attempt >= self.header.bounds.attempts_per_lot {
            Stage::AwaitingHuman(Handover::RoleAttemptsExhausted { role, attempts: attempt })
        } else {
            self.role_stage(role, attempt + 1)
        }
    }

    fn role_stage(&self, role: Role, attempt: u32) -> (s: Stage)
        requires
            role != Role::Coder,
        ensures
            s == role_stage(role, attempt),
    {
        match role {
            Role::Integrator => Stage::Integration { attempt },
            _ => Stage::SecurityAgent { attempt },
        }
    }

    /// A verdict that is not green sends the coder back, bounded by `max_volets`. The volet
    /// replays the gates and every declared stage after it.
    fn volet(&mut self, cause: String) -> (s: Stage)
        ensures
            final(self).header == old(self).header,
            final(self).stage == old(self).stage,
            final(self).resume_with matches Some(Work::Lot(i)) ==> old(self).resume_with == final(self).resume_with,
            opened_volet(*old(self), cause@, Flow { stage: s, ..*final(self) }),
    {
        self.volet_causes.push(cause.clone());
        proof {
            assert(views(self.volet_causes@) =~= views(old(self).volet_causes@).push(cause@));
        }
        if self.volets >= self.header.bounds.max_volets {
            self.resume_with = Some(Work::Volet { n: 1, cause });
            return Stage::AwaitingHuman(Handover::VoletsExhausted {
                causes: clone_strings(&self.volet_causes),
            });
        }
        self.volets = self.volets + 1;
        Stage::Coding { work: Work::Volet { n: self.volets, cause }, attempt: 1 }
    }
}

/// The attempt a stage is on, where it has one, lies between 1 and the
/// bound (at least 1, since a bound of zero still lets the first attempt run).
pub open spec fn attempt_within(f: Flow) -> bool {
    let bound = if f.header.bounds.attempts_per_lot == 0 { 1 } else { f.header.bounds.attempts_per_lot as int };
    match f.stage {
        Stage::Coding { attempt, .. } => 1 <= attempt <= bound,
        Stage::Integration { attempt } => 1 <= attempt <= bound,
        Stage::SecurityAgent { attempt } => 1 <= attempt <= bound,
        _ => true,
    }
}

/// No event takes a run past the attempts a lot or a role is allowed: the
/// flow hands over to the human instead.
pub proof fn law_attempts_bounded(b: Flow, e: Event, a: Flow)
    requires
        attempt_within(b),
        refusal(b, e) is None,
        moved(b, e, a),
    ensures
        attempt_within(a),
{
}

/// A harness failure is not the mission's fault: the same run is replayed,
/// and neither an attempt nor a volet is spent.
pub proof fn law_harness_failure_replays(b: Flow, fault: crate::harness::Fault, lot_done: bool, a: Flow)
    requires
        b.stage is Coding || b.stage is Integration || b.stage is SecurityAgent,
        moved(b, Event::RunEnded { outcome: Outcome::HarnessFailure(fault), lot_done }, a),
    ensures
        refusal(b, Event::RunEnded { outcome: Outcome::HarnessFailure(fault), lot_done }) is None,
        a.stage == b.stage,
        same_rest(a, b),
{
}

/// Outside a human's retry, the volets used grow only by opening one, one at
/// a time, and only while fewer than `max_volets` are used.
pub proof fn law_volets_bounded(b: Flow, e: Event, a: Flow)
    requires
        !(e is Retried),
        refusal(b, e) is None,
        moved(b, e, a),
    ensures
        a.volets == b.volets || (a.volets == b.volets + 1 && b.volets < b.header.bounds.max_volets),
{
}

/// Every red verdict is recorded as a volet cause, whether it opens a volet
/// or hands the mission over.
pub proof fn law_red_is_recorded(b: Flow, reason: String, a: Flow)
    requires
        b.stage is Gates,
        moved(b, Event::GatesFailed { reason }, a),
    ensures
        views(a.volet_causes@) == views(b.volet_causes@).push("gate: "@ + reason@),
        a.stage is Coding || a.stage matches Stage::AwaitingHuman(Handover::VoletsExhausted { .. }),
{
}

/// A verified mission moves no more: every event is refused there, and
/// calling it off says it is already over.
pub proof fn law_verified_is_final(f: Flow, e: Event)
    requires
        f.stage is Verified,
    ensures
        refusal(f, e) is Some,
        e is Ended ==> refusal(f, e) == Some(FlowError::AlreadyOver),
{
}

/// A human may call a mission off wherever it can still be worked on, and
/// once called off, a retry is refused with the reason they gave: a retry
/// never takes back a mission the human stopped.
pub proof fn law_called_off_stays_off(b: Flow, reason: String, a: Flow, because: String)
    requires
        !(b.stage is Verified),
        !(b.stage is AwaitingHuman),
        moved(b, Event::Ended { reason }, a),
    ensures
        refusal(b, Event::Ended { reason }) is None,
        a.stage == Stage::AwaitingHuman(Handover::Abandoned { reason }),
        refusal(a, Event::Retried { because }) == Some(FlowError::CalledOff(reason)),
{
}

/// A bound that stopped the mission is the human's to lift: a retry from a
/// handover the bounds caused starts the stopped work again at attempt 1.
pub proof fn law_retry_resumes(b: Flow, because: String, a: Flow)
    requires
        b.stage matches Stage::AwaitingHuman(h) && !(h is Abandoned),
        refusal(b, Event::Retried { because }) is None,
        moved(b, Event::Retried { because }, a),
    ensures
        a.stage matches Stage::Coding { attempt, .. } && attempt == 1
            || a.stage == (Stage::Integration { attempt: 1 })
            || a.stage == (Stage::SecurityAgent { attempt: 1 }),
{
}

/// The stages follow the mission's shape: once the final gates pass, the
/// integrator runs if the header declares one, else the security agent if it
/// declares one, else the mission is verified.
pub proof fn law_gates_follow_shape(b: Flow, a: Flow)
    requires
        b.stage is Gates,
        moved(b, Event::GatesPassed, a),
    ensures
        b.header.spec_shape() == crate::mission::Shape::Full ==> a.stage == (Stage::Integration { attempt: 1 }),
        b.header.spec_shape() == crate::mission::Shape::CodeAndSecurity ==> a.stage == (Stage::SecurityAgent { attempt: 1 }),
        b.header.spec_shape() == crate::mission::Shape::CodeOnly ==> a.stage == Stage::Verified,
{
}

} // verus!
