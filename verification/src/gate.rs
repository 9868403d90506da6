//! The verification gates.
//!
//! Gates 1 to 4 are played at the end of every run; gates 5 to 7 at the
//! final verification; gate 8, the mechanical security, at both. Every gate
//! is deterministic: nothing is asked of an agent, for a gate an agent could
//! answer is not a gate. What a gate reads — git's answers, the journal, the
//! deliverables, what a script printed — is read by the program around this
//! crate and handed in; what it decides is decided here.
//!
//! Each role gets the gates that match what it produces, and "not
//! applicable" is reported as itself, never as a pass.

use vstd::prelude::*;
use crate::harness::Role;
use crate::text::{
    ascii_lower, chars_of, count_lead, debug_quoted, decimal, eq_ascii_ci, first_from, has_prefix,
    is_ascii_text, is_hex, join, join_strings, lead_count, lemma_first_from_bounds,
    lemma_first_from_skip, lines, lowercase, owned, piece_spans, pieces, push_str, quoted,
    span_eq_ascii_ci, spec_decimal, str_eq, str_starts_with, string_of, text_lines,
    to_ascii_lower, to_lowercase, trim, trim_span, trimmed, views,
};

verus! {

/// The gates, in their order.
#[derive(Debug, Clone, Copy, PartialEq, Eq, PartialOrd, Ord, Structural)]
pub enum Gate {
    /// 1 — the working tree holds nothing uncommitted.
    CleanTree,
    /// 2 — the branch is not protected, and it is ahead of its base.
    BranchAhead,
    /// 3 — the resume block at the top of the journal names `HEAD`.
    ResumeNamesHead,
    /// 4 — the perimeter, on the diff and commit by commit.
    Perimeter,
    /// 5 — the deliverable this role owes.
    Deliverable,
    /// 6 — the battery, green, on the clean copy of `HEAD`.
    Battery,
    /// 7 — every mutant that survived has an outcome.
    Mutation,
    /// 8 — the mechanical security: the dependency audit, the secret scan and
    /// the static analysis the stack declares.
    MechanicalSecurity,
}

impl Gate {
    /// A gate's number.
    pub open spec fn spec_number(self) -> u8 {
        match self {
            Gate::CleanTree => 1,
            Gate::BranchAhead => 2,
            Gate::ResumeNamesHead => 3,
            Gate::Perimeter => 4,
            Gate::Deliverable => 5,
            Gate::Battery => 6,
            Gate::Mutation => 7,
            Gate::MechanicalSecurity => 8,
        }
    }

    /// A gate's number, for a report a human reads.
    pub fn number(self) -> (n: u8)
        ensures
            n == self.spec_number(),
    {
        match self {
            Gate::CleanTree => 1,
            Gate::BranchAhead => 2,
            Gate::ResumeNamesHead => 3,
            Gate::Perimeter => 4,
            Gate::Deliverable => 5,
            Gate::Battery => 6,
            Gate::Mutation => 7,
            Gate::MechanicalSecurity => 8,
        }
    }

    /// A gate's title.
    pub open spec fn spec_title(self) -> Seq<char> {
        match self {
            Gate::CleanTree => "clean tree"@,
            Gate::BranchAhead => "branch not protected and ahead of its base"@,
            Gate::ResumeNamesHead => "the resume block names HEAD"@,
            Gate::Perimeter => "perimeter"@,
            Gate::Deliverable => "the deliverable is there"@,
            Gate::Battery => "the battery is green"@,
            Gate::Mutation => "every survivor has an outcome"@,
            Gate::MechanicalSecurity => "mechanical security"@,
        }
    }

    pub fn title(self) -> (t: &'static str)
        ensures
            t@ == self.spec_title(),
    {
        match self {
            Gate::CleanTree => "clean tree",
            Gate::BranchAhead => "branch not protected and ahead of its base",
            Gate::ResumeNamesHead => "the resume block names HEAD",
            Gate::Perimeter => "perimeter",
            Gate::Deliverable => "the deliverable is there",
            Gate::Battery => "the battery is green",
            Gate::Mutation => "every survivor has an outcome",
            Gate::MechanicalSecurity => "mechanical security",
        }
    }
}

/// What one gate decided.
#[derive(Debug, Clone, PartialEq, Eq)]
pub enum Decision {
    Passed,
    /// Red, and the reason is what a human acts on: which path, which
    /// pattern, which commit.
    Failed(String),
    /// This gate means nothing for this role. Reported as itself.
    NotApplicable(String),
    /// It applies, and could not be played at all. Neither green nor
    /// red, and a mission is not verified over it.
    Unplayed(String),
}

/// One gate's outcome.
#[derive(Debug, Clone, PartialEq, Eq)]
pub struct Outcome {
    pub gate: Gate,
    pub decision: Decision,
    /// Something a green gate still owes the reader.
    pub note: Option<String>,
    /// Set when this gate could not be played because a mutation campaign is
    /// in flight: the one obstacle the HQ clears itself.
    pub waits_on_campaign: bool,
}

impl Outcome {
    /// A gate's decision, with nothing more to say.
    pub open spec fn of_spec(gate: Gate, decision: Decision) -> Outcome {
        Outcome { gate, decision, note: None, waits_on_campaign: false }
    }

    /// A gate's decision, with nothing more to say.
    pub fn of(gate: Gate, decision: Decision) -> (o: Outcome)
        ensures
            o == Outcome::of_spec(gate, decision),
    {
        Outcome { gate, decision, note: None, waits_on_campaign: false }
    }

    /// A gate standing down while the campaign rewrites the copy of `HEAD`.
    pub fn waiting(gate: Gate, why: &str) -> (o: Outcome)
        ensures
            o.gate == gate,
            o.decision matches Decision::Unplayed(w) && w@ == why@,
            o.note is None,
            o.waits_on_campaign,
    {
        Outcome { gate, decision: Decision::Unplayed(owned(why)), note: None, waits_on_campaign: true }
    }
}

/// What the gates of one run decided.
#[derive(Debug, Clone, PartialEq, Eq)]
pub struct Report {
    pub role: Role,
    pub head: String,
    pub outcomes: Vec<Outcome>,
}

/// What a report means for the flow.
#[derive(Debug, Clone, PartialEq, Eq)]
pub enum Verdict {
    /// Every gate that applies was played and none is red.
    Green,
    /// A gate is red, and it is the agent's to fix.
    Red(String),
    /// A gate could not be played, and no run would change that: the flow
    /// waits on a human.
    Wall(String),
    /// The only thing in the way is a mutation campaign, which the HQ clears
    /// itself.
    CampaignOwed(String),
}

/// A verdict, its sentence as text.
pub enum VerdictView {
    Green,
    Red(Seq<char>),
    Wall(Seq<char>),
    CampaignOwed(Seq<char>),
}

impl View for Verdict {
    type V = VerdictView;

    open spec fn view(&self) -> VerdictView {
        match self {
            Verdict::Green => VerdictView::Green,
            Verdict::Red(s) => VerdictView::Red(s@),
            Verdict::Wall(s) => VerdictView::Wall(s@),
            Verdict::CampaignOwed(s) => VerdictView::CampaignOwed(s@),
        }
    }
}

/// `gate N (title)` followed by `rest`.
pub open spec fn gate_line(g: Gate, rest: Seq<char>) -> Seq<char> {
    "gate "@ + spec_decimal(g.spec_number() as nat) + " ("@ + g.spec_title() + ")"@ + rest
}

/// What an outcome says when it stops a report being green.
pub open spec fn stop_line(o: Outcome) -> Option<Seq<char>> {
    match o.decision {
        Decision::Failed(why) => Some(gate_line(o.gate, ": "@ + why@)),
        Decision::Unplayed(why) => Some(gate_line(o.gate, " could not be played: "@ + why@)),
        _ => None,
    }
}

/// What an outcome says when it is red.
pub open spec fn red_line(o: Outcome) -> Option<Seq<char>> {
    match o.decision {
        Decision::Failed(why) => Some(gate_line(o.gate, ": "@ + why@)),
        _ => None,
    }
}

/// The first of `outs` that `line` has something to say about, and what.
pub open spec fn first_said(outs: Seq<Outcome>, line: spec_fn(Outcome) -> Option<Seq<char>>) -> Option<Seq<char>>
    decreases outs.len(),
{
    if outs.len() == 0 {
        None
    } else {
        match first_said(outs.drop_last(), line) {
            Some(s) => Some(s),
            None => line(outs.last()),
        }
    }
}

/// What a gate nobody could play, and that no campaign is in the way of,
/// says.
pub open spec fn wall_line(o: Outcome) -> Option<Seq<char>> {
    match o.decision {
        Decision::Unplayed(why) => if o.gate != Gate::Mutation && !o.waits_on_campaign {
            Some(gate_line(o.gate, " could not be played: "@ + why@))
        } else {
            None
        },
        _ => None,
    }
}

/// Why a gate that stood down for a campaign could not be played.
pub open spec fn waiting_line(o: Outcome) -> Option<Seq<char>> {
    match o.decision {
        Decision::Unplayed(why) => if o.gate != Gate::Mutation && o.waits_on_campaign {
            Some(why@)
        } else {
            None
        },
        _ => None,
    }
}

/// Why the last unplayed gate 7 was not played, if one is.
pub open spec fn last_mutation_unplayed(outs: Seq<Outcome>) -> Option<Seq<char>>
    decreases outs.len(),
{
    if outs.len() == 0 {
        None
    } else {
        match outs.last().decision {
            Decision::Unplayed(why) => if outs.last().gate == Gate::Mutation {
                Some(why@)
            } else {
                last_mutation_unplayed(outs.drop_last())
            },
            _ => last_mutation_unplayed(outs.drop_last()),
        }
    }
}

/// What a report means for the flow: red first, then a wall, then the
/// campaign — gate 7's own sentence before that of a gate standing down —
/// then green.
pub open spec fn spec_verdict(outs: Seq<Outcome>) -> VerdictView {
    match first_said(outs, |o: Outcome| red_line(o)) {
        Some(r) => VerdictView::Red(r),
        None => match first_said(outs, |o: Outcome| wall_line(o)) {
            Some(w) => VerdictView::Wall(w),
            None => match last_mutation_unplayed(outs) {
                Some(why) => VerdictView::CampaignOwed(why),
                None => match first_said(outs, |o: Outcome| waiting_line(o)) {
                    Some(why) => VerdictView::CampaignOwed(why),
                    None => VerdictView::Green,
                },
            },
        },
    }
}

fn gate_text(g: Gate, rest: &str) -> (r: String)
    ensures
        r@ == gate_line(g, rest@),
{
    let mut r = owned("gate ");
    push_str(&mut r, decimal(g.number() as u64).as_str());
    push_str(&mut r, " (");
    push_str(&mut r, g.title());
    push_str(&mut r, ")");
    push_str(&mut r, rest);
    r
}

fn stop_text(o: &Outcome) -> (r: Option<String>)
    ensures
        match (r, stop_line(*o)) {
            (Some(a), Some(b)) => a@ == b,
            (None, None) => true,
            _ => false,
        },
{
    match &o.decision {
        Decision::Failed(why) => {
            let mut rest = owned(": ");
            push_str(&mut rest, why.as_str());
            Some(gate_text(o.gate, rest.as_str()))
        },
        Decision::Unplayed(why) => {
            let mut rest = owned(" could not be played: ");
            push_str(&mut rest, why.as_str());
            Some(gate_text(o.gate, rest.as_str()))
        },
        _ => None,
    }
}

fn red_text(o: &Outcome) -> (r: Option<String>)
    ensures
        match (r, red_line(*o)) {
            (Some(a), Some(b)) => a@ == b,
            (None, None) => true,
            _ => false,
        },
{
    match &o.decision {
        Decision::Failed(why) => {
            let mut rest = owned(": ");
            push_str(&mut rest, why.as_str());
            Some(gate_text(o.gate, rest.as_str()))
        },
        _ => None,
    }
}

/// Whether an optional string says what an optional text says.
pub open spec fn says(r: Option<String>, s: Option<Seq<char>>) -> bool {
    match (r, s) {
        (Some(a), Some(b)) => a@ == b,
        (None, None) => true,
        _ => false,
    }
}

impl Report {
    /// The first gate that stops this report being green, in the
    /// gates' order — red, or never played at all.
    pub fn failure(&self) -> (r: Option<String>)
        ensures
            says(r, first_said(self.outcomes@, |o: Outcome| stop_line(o))),
    {
        let mut found: Option<String> = None;
        let mut i: usize = 0;
        while i < self.outcomes.len()
            invariant
                i <= self.outcomes@.len(),
                says(found, first_said(self.outcomes@.subrange(0, i as int), |o: Outcome| stop_line(o))),
            decreases self.outcomes@.len() - i,
        {
            proof {
                assert(self.outcomes@.subrange(0, i + 1).drop_last() =~= self.outcomes@.subrange(0, i as int));
            }
            if found.is_none() {
                found = stop_text(&self.outcomes[i]);
            }
            i += 1;
        }
        assert(self.outcomes@.subrange(0, i as int) =~= self.outcomes@);
        found
    }

    /// The first gate that is red: a verdict on the work, and the agent's to
    /// fix.
    pub fn failed(&self) -> (r: Option<String>)
        ensures
            says(r, first_said(self.outcomes@, |o: Outcome| red_line(o))),
    {
        let mut found: Option<String> = None;
        let mut i: usize = 0;
        while i < self.outcomes.len()
            invariant
                i <= self.outcomes@.len(),
                says(found, first_said(self.outcomes@.subrange(0, i as int), |o: Outcome| red_line(o))),
            decreases self.outcomes@.len() - i,
        {
            proof {
                assert(self.outcomes@.subrange(0, i + 1).drop_last() =~= self.outcomes@.subrange(0, i as int));
            }
            if found.is_none() {
                found = red_text(&self.outcomes[i]);
            }
            i += 1;
        }
        assert(self.outcomes@.subrange(0, i as int) =~= self.outcomes@);
        found
    }

    /// What this report means for the flow, decided once. Red first: it is
    /// the agent's to fix. Then a wall, which waits on a human: a profile
    /// that will not come up leaves gate 6 unplayed too, and spending an hour
    /// of mutation in front of it is an hour for nothing. Then the campaign,
    /// which the HQ clears itself.
    pub fn verdict(&self) -> (v: Verdict)
        ensures
            v@ == spec_verdict(self.outcomes@),
    {
        if let Some(reason) = self.failed() {
            return Verdict::Red(reason);
        }
        let mut owed_by_gate: Option<String> = None;
        let mut owed_by_wait: Option<String> = None;
        let mut wall: Option<String> = None;
        let mut i: usize = 0;
        while i < self.outcomes.len()
            invariant
                i <= self.outcomes@.len(),
                says(owed_by_gate, last_mutation_unplayed(self.outcomes@.subrange(0, i as int))),
                says(owed_by_wait, first_said(self.outcomes@.subrange(0, i as int), |o: Outcome| waiting_line(o))),
                says(wall, first_said(self.outcomes@.subrange(0, i as int), |o: Outcome| wall_line(o))),
            decreases self.outcomes@.len() - i,
        {
            proof {
                assert(self.outcomes@.subrange(0, i + 1).drop_last() =~= self.outcomes@.subrange(0, i as int));
            }
            let o = &self.outcomes[i];
            if let Decision::Unplayed(why) = &o.decision {
                if o.gate == Gate::Mutation {
                    owed_by_gate = Some(why.clone());
                } else if o.waits_on_campaign {
                    if owed_by_wait.is_none() {
                        owed_by_wait = Some(why.clone());
                    }
                } else if wall.is_none() {
                    let mut rest = owned(" could not be played: ");
                    push_str(&mut rest, why.as_str());
                    wall = Some(gate_text(o.gate, rest.as_str()));
                }
            }
            i += 1;
        }
        assert(self.outcomes@.subrange(0, i as int) =~= self.outcomes@);
        if let Some(w) = wall {
            return Verdict::Wall(w);
        }
        match owed_by_gate {
            Some(why) => Verdict::CampaignOwed(why),
            None => match owed_by_wait {
                Some(why) => Verdict::CampaignOwed(why),
                None => Verdict::Green,
            },
        }
    }

    pub fn passed(&self) -> (b: bool)
        ensures
            b == (first_said(self.outcomes@, |o: Outcome| stop_line(o)) is None),
    {
        self.failure().is_none()
    }
}

/// Whether an outcome keeps a report from being green.
pub open spec fn stops(o: Outcome) -> bool {
    o.decision is Failed || o.decision is Unplayed
}

proof fn lemma_green_iff_nothing_stops(outs: Seq<Outcome>)
    ensures
        (spec_verdict(outs) is Green) == (first_said(outs, |o: Outcome| stop_line(o)) is None),
        (first_said(outs, |o: Outcome| stop_line(o)) is None) == (forall|i: int| 0 <= i < outs.len()
            ==> !stops(#[trigger] outs[i])),
    decreases outs.len(),
{
    if outs.len() > 0 {
        let init = outs.drop_last();
        lemma_green_iff_nothing_stops(init);
        assert forall|i: int| 0 <= i < init.len() implies #[trigger] init[i] == outs[i] by {}
        if forall|i: int| 0 <= i < outs.len() ==> !stops(#[trigger] outs[i]) {
            assert forall|i: int| 0 <= i < init.len() implies !stops(#[trigger] init[i]) by {
                assert(init[i] == outs[i]);
            }
            assert(!stops(outs[outs.len() - 1]));
        }
        if first_said(outs, |o: Outcome| stop_line(o)) is None {
            assert forall|i: int| 0 <= i < outs.len() implies !stops(#[trigger] outs[i]) by {
                if i < init.len() {
                    assert(init[i] == outs[i]);
                    assert(!stops(init[i]));
                }
            }
        }
    }
}

/// A report passes exactly when its verdict is green: no gate red, and none
/// left unplayed, whatever the reason.
pub proof fn law_passed_iff_green(r: Report)
    ensures
        (first_said(r.outcomes@, |o: Outcome| stop_line(o)) is None) == (spec_verdict(r.outcomes@) is Green),
        (spec_verdict(r.outcomes@) is Green) == (forall|i: int| 0 <= i < r.outcomes@.len()
            ==> !stops(#[trigger] r.outcomes@[i])),
{
    lemma_green_iff_nothing_stops(r.outcomes@);
}

/// What `first_said` says, by index: nothing when `line` says nothing of
/// any outcome, else what it says of the first it says something of.
pub proof fn lemma_first_said(outs: Seq<Outcome>, line: spec_fn(Outcome) -> Option<Seq<char>>)
    ensures
        (first_said(outs, line) is None) == (forall|i: int| 0 <= i < outs.len() ==> line(#[trigger] outs[i]) is None),
        first_said(outs, line) matches Some(x) ==> exists|k: int| 0 <= k < outs.len() && line(#[trigger] outs[k]) == Some(x)
            && forall|j: int| 0 <= j < k ==> line(#[trigger] outs[j]) is None,
    decreases outs.len(),
{
    if outs.len() > 0 {
        let init = outs.drop_last();
        lemma_first_said(init, line);
        assert forall|i: int| 0 <= i < init.len() implies #[trigger] init[i] == outs[i] by {}
        if first_said(init, line) is None {
            assert forall|i: int| 0 <= i < outs.len() && line(outs[i]) is Some implies i == outs.len() - 1 by {
                if i < init.len() {
                    assert(line(init[i]) is None);
                }
            }
            if let Some(x) = line(outs.last()) {
                assert(line(outs[outs.len() - 1]) == Some(x));
            }
        } else {
            let x = first_said(init, line)->0;
            let k = choose|k: int| 0 <= k < init.len() && line(#[trigger] init[k]) == Some(x)
                && forall|j: int| 0 <= j < k ==> line(#[trigger] init[j]) is None;
            assert(line(outs[k]) == Some(x));
            assert forall|j: int| 0 <= j < k implies line(#[trigger] outs[j]) is None by {
                assert(line(init[j]) is None);
            }
            assert(line(init[k]) is Some);
        }
    }
}

/// With no gate red, a report's verdict is the first wall — a gate that
/// could not be played for a reason other than the campaign — if there is
/// one; else the campaign owed, in gate 7's own words when gate 7 is
/// unplayed, else in those of the first gate that stood down for it; else
/// green.
pub proof fn law_verdict_without_red(outs: Seq<Outcome>)
    requires
        forall|i: int| 0 <= i < outs.len() ==> !((#[trigger] outs[i]).decision is Failed),
    ensures
        first_said(outs, |o: Outcome| wall_line(o)) matches Some(w) ==> spec_verdict(outs) == VerdictView::Wall(w)
            && exists|k: int| 0 <= k < outs.len() && wall_line(#[trigger] outs[k]) == Some(w)
                && forall|j: int| 0 <= j < k ==> wall_line(#[trigger] outs[j]) is None,
        first_said(outs, |o: Outcome| wall_line(o)) is None ==> match last_mutation_unplayed(outs) {
            Some(why) => spec_verdict(outs) == VerdictView::CampaignOwed(why),
            None => match first_said(outs, |o: Outcome| waiting_line(o)) {
                Some(why) => spec_verdict(outs) == VerdictView::CampaignOwed(why),
                None => spec_verdict(outs) == VerdictView::Green,
            },
        },
        (first_said(outs, |o: Outcome| wall_line(o)) is None) == (forall|i: int| 0 <= i < outs.len()
            ==> wall_line(#[trigger] outs[i]) is None),
{
    let red = |o: Outcome| red_line(o);
    let wall = |o: Outcome| wall_line(o);
    lemma_first_said(outs, red);
    assert forall|i: int| 0 <= i < outs.len() implies red(#[trigger] outs[i]) is None by {
        assert(!(outs[i].decision is Failed));
    }
    lemma_first_said(outs, wall);
}

/// Red outranks everything: when any gate is red, the verdict is red, in
/// the words of the first red gate, whatever other gates could not be
/// played or wait on a campaign.
pub proof fn law_red_first(outs: Seq<Outcome>)
    requires
        exists|i: int| 0 <= i < outs.len() && (#[trigger] outs[i]).decision is Failed,
    ensures
        exists|k: int| 0 <= k < outs.len() && (#[trigger] outs[k]).decision is Failed
            && (forall|j: int| 0 <= j < k ==> !((#[trigger] outs[j]).decision is Failed))
            && spec_verdict(outs) == VerdictView::Red(gate_line(outs[k].gate, ": "@ + outs[k].decision->Failed_0@)),
{
    let red = |o: Outcome| red_line(o);
    lemma_first_said(outs, red);
    let i = choose|i: int| 0 <= i < outs.len() && (#[trigger] outs[i]).decision is Failed;
    assert(red(outs[i]) is Some);
    let x = first_said(outs, red)->0;
    let k = choose|k: int| 0 <= k < outs.len() && red(#[trigger] outs[k]) == Some(x)
        && forall|j: int| 0 <= j < k ==> red(#[trigger] outs[j]) is None;
    assert forall|j: int| 0 <= j < k implies !((#[trigger] outs[j]).decision is Failed) by {
        assert(red(outs[j]) is None);
    }
    assert(outs[k].decision is Failed);
}

/// Whether `d` is red for the reason `w`.
pub open spec fn failed_with(d: Decision, w: Seq<char>) -> bool {
    d matches Decision::Failed(x) && x@ == w
}

/// Whether `d` is `NotApplicable`, for the reason `w`.
pub open spec fn not_applicable_with(d: Decision, w: Seq<char>) -> bool {
    d matches Decision::NotApplicable(x) && x@ == w
}

/// Whether `d` is `Unplayed`, for the reason `w`.
pub open spec fn unplayed_with(d: Decision, w: Seq<char>) -> bool {
    d matches Decision::Unplayed(x) && x@ == w
}

/// Why three gates do not apply to the security agent.
pub open spec fn read_only_tree() -> Seq<char> {
    "the security agent works in a read-only tree and commits nothing"@
}

fn read_only_tree_text() -> (r: String)
    ensures
        r@ == read_only_tree(),
{
    owned("the security agent works in a read-only tree and commits nothing")
}

/// A revision `git` resolves exactly as given: a commit, or a ref that
/// already names one — never a mission's base by its header name, which has
/// two readings in a slot.
#[derive(Debug, Clone, PartialEq, Eq)]
pub struct Rev(String);

impl View for Rev {
    type V = Seq<char>;

    closed spec fn view(&self) -> Seq<char> {
        self.0@
    }
}

impl Rev {
    /// A commit, as git printed it.
    pub fn commit(sha: String) -> (r: Rev)
        ensures
            r@ == sha@,
    {
        Rev(sha)
    }

    /// The revision, as git is given it.
    pub fn as_str(&self) -> (s: &str)
        ensures
            s@ == self@,
    {
        self.0.as_str()
    }
}

/// The base as a slot's clone knows it, the remote-tracking one first:
/// `origin/<base>` when `refs/remotes/origin/<base>` resolves
/// (`remote_tracked`), else the clone's own `<base>`.
pub fn base_ref(base: &str, remote_tracked: bool) -> (r: Rev)
    ensures
        r@ == if remote_tracked { "origin/"@ + base@ } else { base@ },
{
    if remote_tracked {
        let mut name = owned("origin/");
        push_str(&mut name, base);
        Rev(name)
    } else {
        Rev(owned(base))
    }
}

/// Gate 1 for what `git status --porcelain` printed, trimmed.
pub fn clean_tree(role: Role, status: &str) -> (d: Decision)
    ensures
        role == Role::Security ==> not_applicable_with(d, read_only_tree()),
        role != Role::Security && status@.len() == 0 ==> d == Decision::Passed,
        role != Role::Security && status@.len() > 0 ==> failed_with(d, "the tree holds "@ + spec_decimal(lines(status@).len()) + " uncommitted change(s): "@
                + join(lines(status@).take(if lines(status@).len() < 10 { lines(status@).len() as int } else { 10 }), "; "@)),
{
    if role == Role::Security {
        return Decision::NotApplicable(read_only_tree_text());
    }
    if status.unicode_len() == 0 {
        return Decision::Passed;
    }
    let all = text_lines(status);
    let n = all.len();
    let shown_n: usize = if n < 10 { n } else { 10 };
    let mut shown: Vec<String> = Vec::new();
    let mut i: usize = 0;
    while i < shown_n
        invariant
            shown_n <= all@.len(),
            i <= shown_n,
            shown@ == all@.subrange(0, i as int),
        decreases shown_n - i,
    {
        shown.push(all[i].clone());
        i += 1;
        assert(shown@ =~= all@.subrange(0, i as int));
    }
    assert(views(shown@) =~= lines(status@).take(shown_n as int));
    let mut why = owned("the tree holds ");
    push_str(&mut why, decimal(n as u64).as_str());
    push_str(&mut why, " uncommitted change(s): ");
    push_str(&mut why, join_strings(shown.as_slice(), "; ").as_str());
    Decision::Failed(why)
}

/// The first half of gate 2: it does not apply to the security agent, and a
/// branch the project protects fails it. `None` when the branch is free and
/// the question of its commits remains.
pub fn branch_protected(role: Role, branch: &str, protected: &[String]) -> (d: Option<Decision>)
    ensures
        role == Role::Security ==> (d matches Some(x) && not_applicable_with(x, read_only_tree())),
        role != Role::Security && views(protected@).contains(branch@) ==> (d matches Some(x)
            && failed_with(x, "the slot is on "@ + debug_quoted(branch@) + ", which the project protects"@)),
        role != Role::Security && !views(protected@).contains(branch@) ==> d is None,
{
    if role == Role::Security {
        return Some(Decision::NotApplicable(read_only_tree_text()));
    }
    let mut i: usize = 0;
    while i < protected.len()
        invariant
            role != Role::Security,
            i <= protected@.len(),
            forall|k: int| 0 <= k < i ==> protected@[k]@ != branch@,
        decreases protected@.len() - i,
    {
        if str_eq(protected[i].as_str(), branch) {
            assert(views(protected@)[i as int] == branch@);
            let mut why = owned("the slot is on ");
            push_str(&mut why, quoted(branch).as_str());
            push_str(&mut why, ", which the project protects");
            return Some(Decision::Failed(why));
        }
        i += 1;
    }
    assert(!views(protected@).contains(branch@)) by {
        if views(protected@).contains(branch@) {
            let k = choose|k: int| 0 <= k < views(protected@).len() && views(protected@)[k] == branch@;
            assert(protected@[k]@ == branch@);
        }
    }
    None
}

/// The second half of gate 2, for what `git rev-list --count <base>..HEAD`
/// printed: red when the branch has no commit its base lacks.
pub fn branch_ahead(branch: &str, base: &Rev, count: &str) -> (d: Decision)
    ensures
        trim(count@) == "0"@ ==> failed_with(d, debug_quoted(branch@) + " has no commit that Rev("@
            + debug_quoted(base@) + ") does not already have"@),
        trim(count@) != "0"@ ==> d == Decision::Passed,
{
    let c = trimmed(count);
    if str_eq(c.as_str(), "0") {
        let mut why = quoted(branch);
        push_str(&mut why, " has no commit that Rev(");
        push_str(&mut why, quoted(base.as_str()).as_str());
        push_str(&mut why, ") does not already have");
        return Decision::Failed(why);
    }
    Decision::Passed
}

/// What a piece of a journal is, as a heading: its text without white space
/// at either end.
pub open spec fn heading_text(piece: Seq<char>) -> Seq<char> {
    trim(piece)
}

/// A heading's level: how many `#` it begins with, 0 when it is no heading.
pub open spec fn heading_level(piece: Seq<char>) -> nat {
    lead_count(heading_text(piece), '#')
}

/// Whether a piece is the `ÉTAT DE REPRISE` heading, at any level, letters
/// compared without ASCII case.
pub open spec fn is_resume_heading(piece: Seq<char>) -> bool {
    let t = heading_text(piece);
    let h = heading_level(piece);
    h > 0 && eq_ascii_ci(trim(t.subrange(h as int, t.len() as int)), "ÉTAT DE REPRISE"@)
}

/// The text of piece `k` of `s`.
pub open spec fn piece_of(s: Seq<char>, k: int) -> Seq<char> {
    s.subrange(pieces(s)[k].0, pieces(s)[k].1)
}

/// Where the `ÉTAT DE REPRISE` section of a journal lies, heading included:
/// from the first such heading to the next heading at the same level or
/// higher, or to the end.
pub open spec fn resume_span(s: Seq<char>) -> Option<(int, int)> {
    let n = pieces(s).len() as int;
    let a = first_from(0, n, |k: int| is_resume_heading(piece_of(s, k)));
    if a >= n {
        None
    } else {
        let level = heading_level(piece_of(s, a));
        let b = first_from(a + 1, n, |k: int| 0 < heading_level(piece_of(s, k)) <= level);
        Some((pieces(s)[a].0, if b < n { pieces(s)[b].0 } else { s.len() as int }))
    }
}

/// The heading level of `s[from..to]`, and whether it is the resume heading.
fn read_heading(s: &[char], from: usize, to: usize, title: &[char]) -> (r: (usize, bool))
    requires
        from <= to <= s@.len(),
        title@ == "ÉTAT DE REPRISE"@,
    ensures
        r.0 == heading_level(s@.subrange(from as int, to as int)),
        r.1 == is_resume_heading(s@.subrange(from as int, to as int)),
{
    let ghost piece = s@.subrange(from as int, to as int);
    let (a, b) = trim_span(s, from, to);
    let h = count_lead(s, a, b, '#');
    let ghost t = heading_text(piece);
    assert(t =~= s@.subrange(a as int, b as int));
    if h == 0 {
        return (0, false);
    }
    let (c, d) = trim_span(s, a + h, b);
    assert(t.subrange(h as int, t.len() as int) =~= s@.subrange(a + h, b as int));
    let is_title = span_eq_ascii_ci(s, c, d, title);
    (h, is_title)
}

/// The `ÉTAT DE REPRISE` section of a journal, heading included.
pub fn resume_block(text: &str) -> (r: Option<&str>)
    ensures
        match (r, resume_span(text@)) {
            (Some(b), Some((x, y))) => b@ == text@.subrange(x, y),
            (None, None) => true,
            _ => false,
        },
{
    let v = chars_of(text);
    let title = chars_of("ÉTAT DE REPRISE");
    let ps = piece_spans(v.as_slice());
    let ghost n = ps@.len() as int;
    let ghost s = text@;
    let ghost is_start = |k: int| is_resume_heading(piece_of(s, k));
    let mut start: Option<(usize, usize)> = None;
    let mut k: usize = 0;
    while k < ps.len()
        invariant
            v@ == s,
            s == text@,
            title@ == "ÉTAT DE REPRISE"@,
            n == ps@.len(),
            n == pieces(s).len(),
            k <= n,
            forall|i: int| 0 <= i < n ==> (#[trigger] ps@[i]).0 as int == pieces(s)[i].0
                && ps@[i].1 as int == pieces(s)[i].1 && ps@[i].0 < ps@[i].1 <= s.len(),
            forall|i: int, j: int| 0 <= i < j < n ==> (#[trigger] ps@[i]).1 <= (#[trigger] ps@[j]).0,
            is_start == (|k: int| is_resume_heading(piece_of(s, k))),
            match start {
                None => first_from(0, n, is_start) == first_from(k as int, n, is_start),
                Some((a, level)) => a < k && a as int == first_from(0, n, is_start)
                    && level == heading_level(piece_of(s, a as int))
                    && first_from(a + 1, n, |j: int| 0 < heading_level(piece_of(s, j)) <= level)
                        == first_from(k as int, n, |j: int| 0 < heading_level(piece_of(s, j)) <= level),
            },
        decreases n - k,
    {
        let (from, to) = ps[k];
        let (level, is_title) = read_heading(v.as_slice(), from, to, title.as_slice());
        assert(v@.subrange(from as int, to as int) == piece_of(s, k as int));
        match start {
            None => {
                if is_title {
                    proof {
                        assert(is_start(k as int));
                    }
                    start = Some((k, level));
                    proof {
                        let q = |j: int| 0 < heading_level(piece_of(s, j)) <= level;
                        assert(first_from(k + 1, n, q) == first_from(k + 1, n, q));
                    }
                } else {
                    proof {
                        assert(!is_start(k as int));
                        lemma_first_from_skip(k as int, k + 1, n, is_start);
                    }
                }
            },
            Some((a, top)) => {
                let ghost q = |j: int| 0 < heading_level(piece_of(s, j)) <= top;
                if level > 0 && level <= top {
                    proof {
                        assert(q(k as int));
                        assert(first_from(k as int, n, q) == k);
                    }
                    let (x, _) = ps[a];
                    assert(ps@[a as int].0 < ps@[a as int].1 <= ps@[k as int].0);
                    return Some(text.substring_char(x, from));
                } else {
                    proof {
                        assert(!q(k as int));
                        lemma_first_from_skip(k as int, k + 1, n, q);
                    }
                }
            },
        }
        k += 1;
    }
    match start {
        None => None,
        Some((a, _)) => {
            let (x, _) = ps[a];
            Some(text.substring_char(x, v.len()))
        },
    }
}

/// Whether `block[i..j]` is a whole run of hexadecimal digits: nothing
/// hexadecimal on either side of it.
pub open spec fn hex_run(block: Seq<char>, i: int, j: int) -> bool {
    &&& 0 <= i <= j <= block.len()
    &&& (i == 0 || !is_hex(block[i - 1]))
    &&& (j == block.len() || !is_hex(block[j]))
    &&& forall|k: int| i <= k < j ==> is_hex(#[trigger] block[k])
}

/// `s` with its ASCII capitals made small.
pub open spec fn lower_ascii(s: Seq<char>) -> Seq<char> {
    s.map_values(|c: char| ascii_lower(c))
}

/// Whether `block` names `head`, in full or abbreviated: a whole run of at
/// least seven hexadecimal digits that `head` begins with, case aside. Seven
/// is git's own floor for a short id.
pub open spec fn names_head(block: Seq<char>, head: Seq<char>) -> bool {
    exists|i: int, j: int| #[trigger] hex_run(block, i, j) && j - i >= 7
        && has_prefix(head, lower_ascii(block.subrange(i, j)))
}

fn is_hex_digit(c: char) -> (b: bool)
    ensures
        b == is_hex(c),
{
    ('0' <= c && c <= '9') || ('a' <= c && c <= 'f') || ('A' <= c && c <= 'F')
}

/// Whether `head` begins with `block[i..j]`, case aside.
fn prefix_of(block: &[char], i: usize, j: usize, head: &[char]) -> (b: bool)
    requires
        i <= j <= block@.len(),
    ensures
        b == has_prefix(head@, lower_ascii(block@.subrange(i as int, j as int))),
{
    let ghost want = lower_ascii(block@.subrange(i as int, j as int));
    if j - i > head.len() {
        return false;
    }
    let mut k: usize = 0;
    while k < j - i
        invariant
            i <= j <= block@.len(),
            j - i <= head@.len(),
            want == lower_ascii(block@.subrange(i as int, j as int)),
            k <= j - i,
            forall|m: int| 0 <= m < k ==> head@[m] == #[trigger] want[m],
        decreases j - i - k,
    {
        if to_ascii_lower(block[i + k]) != head[k] {
            assert(want[k as int] == ascii_lower(block@[i + k]));
            assert(head@.subrange(0, want.len() as int)[k as int] != want[k as int]);
            return false;
        }
        k += 1;
    }
    assert(head@.subrange(0, want.len() as int) =~= want);
    true
}

/// Whether `block` names `head` — in full or abbreviated, as a human or an
/// agent writes it.
pub fn names(block: &str, head: &str) -> (b: bool)
    ensures
        b == names_head(block@, head@),
{
    let v = chars_of(block);
    let h = chars_of(head);
    let n = v.len();
    let mut start: usize = 0;
    let mut j: usize = 0;
    while j < n
        invariant
            v@ == block@,
            h@ == head@,
            n == v@.len(),
            start <= j <= n,
            start == 0 || !is_hex(v@[start - 1]),
            forall|k: int| start <= k < j ==> is_hex(#[trigger] v@[k]),
            forall|x: int, y: int| #[trigger] hex_run(v@, x, y) && y < j && y - x >= 7
                ==> !has_prefix(h@, lower_ascii(v@.subrange(x, y))),
        decreases n - j,
    {
        if !is_hex_digit(v[j]) {
            if j - start >= 7 && prefix_of(v.as_slice(), start, j, h.as_slice()) {
                assert(hex_run(v@, start as int, j as int));
                return true;
            }
            proof {
                assert forall|x: int, y: int| #[trigger] hex_run(v@, x, y) && y < j + 1 && y - x >= 7
                    implies !has_prefix(h@, lower_ascii(v@.subrange(x, y))) by {
                    if y == j {
                        if x < start {
                            assert(is_hex(v@[start - 1]));
                        } else if x > start {
                            assert(is_hex(v@[x - 1]));
                        }
                    }
                }
            }
            start = j + 1;
        } else {
            proof {
                assert forall|x: int, y: int| #[trigger] hex_run(v@, x, y) && y < j + 1 && y - x >= 7
                    implies !has_prefix(h@, lower_ascii(v@.subrange(x, y))) by {
                    if y == j {
                        assert(!is_hex(v@[y]));
                    }
                }
            }
        }
        j += 1;
    }
    if n - start >= 7 && prefix_of(v.as_slice(), start, n, h.as_slice()) {
        assert(hex_run(v@, start as int, n as int));
        return true;
    }
    assert(!names_head(block@, head@)) by {
        if names_head(block@, head@) {
            let (x, y) = choose|x: int, y: int| #[trigger] hex_run(block@, x, y) && y - x >= 7
                && has_prefix(head@, lower_ascii(block@.subrange(x, y)));
            assert(hex_run(v@, x, y));
            if y == n {
                if x < start {
                    assert(is_hex(v@[start - 1]));
                } else if x > start {
                    assert(is_hex(v@[x - 1]));
                }
            }
        }
    }
    false
}

/// Gate 3 for the journal's text: the block at the top of the journal must
/// name `HEAD`, not the file somewhere, for a journal that names an earlier
/// commit in its history is exactly the stale resume this gate catches.
/// `journal` is how the file is shown to a human.
pub fn resume_names_head(journal: &str, text: &str, head: &str) -> (d: Decision)
    requires
        is_ascii_text(head@),
    ensures
        resume_span(text@) is None ==> failed_with(d, journal@
            + " has no `ÉTAT DE REPRISE` block; a run that ends without one has not honoured the run contract"@),
        resume_span(text@) matches Some((x, y)) ==> {
            if names_head(text@.subrange(x, y), head@) {
                d == Decision::Passed
            } else {
                failed_with(d, "the resume block does not name HEAD ("@
                    + head@.take(if head@.len() < 12 { head@.len() as int } else { 12 })
                    + "); it is the block at the top of the journal that must, not the file somewhere"@)
            }
        },
{
    match resume_block(text) {
        None => {
            let mut why = owned(journal);
            push_str(&mut why, " has no `ÉTAT DE REPRISE` block; a run that ends without one has not honoured the run contract");
            Decision::Failed(why)
        },
        Some(block) => {
            if names(block, head) {
                Decision::Passed
            } else {
                let h = chars_of(head);
                let shown: usize = if h.len() < 12 { h.len() } else { 12 };
                let mut why = owned("the resume block does not name HEAD (");
                push_str(&mut why, string_of(h.as_slice(), 0, shown).as_str());
                push_str(&mut why, "); it is the block at the top of the journal that must, not the file somewhere");
                Decision::Failed(why)
            }
        },
    }
}

/// Whether a line is a markdown heading whose text, made lower case, begins
/// with `word`.
pub open spec fn heading_begins(line: Seq<char>, word: Seq<char>) -> bool {
    let t = trim(line);
    let h = lead_count(t, '#');
    h > 0 && has_prefix(lowercase(trim(t.subrange(h as int, t.len() as int))), word)
}

/// A markdown heading whose text begins with `word`, case aside.
pub fn has_heading(text: &str, word: &str) -> (b: bool)
    ensures
        b == exists|i: int| 0 <= i < lines(text@).len() && heading_begins(#[trigger] lines(text@)[i], word@),
{
    let all = text_lines(text);
    let mut i: usize = 0;
    while i < all.len()
        invariant
            views(all@) == lines(text@),
            i <= all@.len(),
            forall|k: int| 0 <= k < i ==> !heading_begins(#[trigger] lines(text@)[k], word@),
        decreases all@.len() - i,
    {
        let line = chars_of(all[i].as_str());
        assert(line@ == lines(text@)[i as int]);
        let (a, b) = trim_span(line.as_slice(), 0, line.len());
        assert(line@.subrange(0, line@.len() as int) =~= line@);
        let h = count_lead(line.as_slice(), a, b, '#');
        if h > 0 {
            let (c, d) = trim_span(line.as_slice(), a + h, b);
            let ghost t = trim(line@);
            assert(t =~= line@.subrange(a as int, b as int));
            assert(t.subrange(h as int, t.len() as int) =~= line@.subrange(a + h, b as int));
            let rest = string_of(line.as_slice(), c, d);
            let low = to_lowercase(rest.as_str());
            if str_starts_with(low.as_str(), word) {
                return true;
            }
        } else {
            assert(trim(line@) =~= line@.subrange(a as int, b as int));
        }
        i += 1;
    }
    false
}

/// The first `n` of `items` joined by `; `, and an ellipsis when there were
/// more.
pub open spec fn spec_head_of(items: Seq<Seq<char>>, n: nat) -> Seq<char> {
    let shown = join(items.take(if items.len() < n { items.len() as int } else { n as int }), "; "@);
    if items.len() > n { shown + "; …"@ } else { shown }
}

/// The first `n` items, and an ellipsis when there were more.
pub fn head_of(items: &[String], n: usize) -> (r: String)
    ensures
        r@ == spec_head_of(views(items@), n as nat),
{
    let k: usize = if items.len() < n { items.len() } else { n };
    let mut shown: Vec<String> = Vec::new();
    let mut i: usize = 0;
    while i < k
        invariant
            k <= items@.len(),
            i <= k,
            shown@ == items@.subrange(0, i as int),
        decreases k - i,
    {
        shown.push(items[i].clone());
        i += 1;
        assert(shown@ =~= items@.subrange(0, i as int));
    }
    assert(views(shown@) =~= views(items@).take(k as int));
    let mut r = join_strings(shown.as_slice(), "; ");
    if items.len() > n {
        push_str(&mut r, "; …");
    }
    r
}

/// The last twenty lines of whichever stream said something: the error
/// stream, unless it holds only white space.
pub open spec fn spec_tail(stderr: Seq<char>, stdout: Seq<char>) -> Seq<char> {
    let text = if trim(stderr).len() == 0 { stdout } else { stderr };
    let ls = lines(text);
    let from = if ls.len() < 20 { 0 } else { ls.len() - 20 };
    join(ls.subrange(from, ls.len() as int), "\n"@)
}

/// The last lines a human needs, from whichever stream said something.
pub fn tail(stderr: &str, stdout: &str) -> (r: String)
    ensures
        r@ == spec_tail(stderr@, stdout@),
{
    let err = trimmed(stderr);
    let text = if err.as_str().unicode_len() == 0 { stdout } else { stderr };
    let ls = text_lines(text);
    let from: usize = if ls.len() < 20 { 0 } else { ls.len() - 20 };
    let mut kept: Vec<String> = Vec::new();
    let mut i: usize = from;
    while i < ls.len()
        invariant
            from <= i <= ls@.len(),
            kept@ == ls@.subrange(from as int, i as int),
        decreases ls@.len() - i,
    {
        kept.push(ls[i].clone());
        i += 1;
        assert(kept@ =~= ls@.subrange(from as int, i as int));
    }
    assert(views(kept@) =~= views(ls@).subrange(from as int, ls@.len() as int));
    join_strings(kept.as_slice(), "\n")
}

// ---------------------------------------------------------------------
// Path patterns, through `globset`: gate 4 keeps an agent
// out of the files that gate it, and hand-rolled glob semantics fail in the
// quiet direction — `**` across zero segments, `*` crossing a `/`.

#[verifier::external_type_specification]
#[verifier::external_body]
pub struct ExGlob(globset::Glob);

#[verifier::external_type_specification]
#[verifier::external_body]
pub struct ExGlobSet(globset::GlobSet);

#[verifier::external_type_specification]
#[verifier::external_body]
pub struct ExGlobSetBuilder(globset::GlobSetBuilder);

#[verifier::external_type_specification]
#[verifier::external_body]
pub struct ExGlobError(globset::Error);

/// Whether `globset::Glob::new` accepts a pattern.
pub uninterp spec fn glob_accepts(pattern: Seq<char>) -> bool;

/// The pattern a `Glob` was built from, as `Glob::glob` returns it.
pub uninterp spec fn glob_source(g: globset::Glob) -> Seq<char>;

/// The patterns added to a builder so far, in order.
pub uninterp spec fn builder_globs(b: globset::GlobSetBuilder) -> Seq<Seq<char>>;

/// Whether `GlobSet::is_match` says the set matches `path`.
pub uninterp spec fn set_matches(s: globset::GlobSet, path: Seq<char>) -> bool;

/// Whether the glob built with default options from `pattern` matches
/// `path`.
pub uninterp spec fn glob_matches(pattern: Seq<char>, path: Seq<char>) -> bool;

/// Whether `GlobSet::new` builds a set from these patterns.
pub uninterp spec fn set_builds(patterns: Seq<Seq<char>>) -> bool;

/// `globset::Glob::new`: a pattern with default options. It fails exactly
/// on the patterns it does not accept, and the glob it builds remembers its
/// pattern.
#[verifier::external_body]
fn new_glob(pattern: &str) -> (r: Result<globset::Glob, globset::Error>)
    ensures
        r is Ok == glob_accepts(pattern@),
        r matches Ok(g) ==> glob_source(g) == pattern@,
{
    globset::Glob::new(pattern)
}

/// `globset::GlobSetBuilder::new`: a builder holding no pattern.
#[verifier::external_body]
fn new_builder() -> (b: globset::GlobSetBuilder)
    ensures
        builder_globs(b) == Seq::<Seq<char>>::empty(),
{
    globset::GlobSetBuilder::new()
}

/// `globset::GlobSetBuilder::add`: the glob is pushed after the others.
#[verifier::external_body]
fn add_glob(b: &mut globset::GlobSetBuilder, g: globset::Glob)
    ensures
        builder_globs(*final(b)) == builder_globs(*old(b)).push(glob_source(g)),
{
    b.add(g);
}

/// `globset::GlobSetBuilder::build`: when `GlobSet::new` builds a set from
/// the patterns added, a set that matches a path exactly when one of those
/// patterns does. The set keeps no list of its patterns, only how they
/// match: nothing is said of which patterns it was built from.
#[verifier::external_body]
fn build_set(b: &globset::GlobSetBuilder) -> (r: Result<globset::GlobSet, globset::Error>)
    ensures
        r is Ok == set_builds(builder_globs(*b)),
        r matches Ok(s) ==> forall|p: Seq<char>| #[trigger] set_matches(s, p) == (exists|i: int|
            0 <= i < builder_globs(*b).len() && glob_matches(#[trigger] builder_globs(*b)[i], p)),
{
    b.build()
}

/// `globset::GlobSet::is_match`: whether any glob in the set matches the
/// path.
#[verifier::external_body]
fn set_is_match(s: &globset::GlobSet, path: &str) -> (r: bool)
    ensures
        r == set_matches(*s, path@),
{
    s.is_match(path)
}

/// Whether any of `patterns` matches `path`.
pub open spec fn any_matches(patterns: Seq<Seq<char>>, path: Seq<char>) -> bool {
    exists|i: int| 0 <= i < patterns.len() && glob_matches(#[trigger] patterns[i], path)
}

/// Whether a set matches a path exactly when one of `patterns` does.
pub open spec fn matches_as(s: globset::GlobSet, patterns: Seq<Seq<char>>) -> bool {
    forall|p: Seq<char>| #[trigger] set_matches(s, p) == any_matches(patterns, p)
}

/// The paths no pattern of `patterns` matches, in order.
pub open spec fn unmatched(patterns: Seq<Seq<char>>, paths: Seq<Seq<char>>) -> Seq<Seq<char>>
    decreases paths.len(),
{
    if paths.len() == 0 {
        paths
    } else if any_matches(patterns, paths.last()) {
        unmatched(patterns, paths.drop_last())
    } else {
        unmatched(patterns, paths.drop_last()).push(paths.last())
    }
}

/// The paths `set` does not match, in order.
pub open spec fn unmatched_by(set: globset::GlobSet, paths: Seq<Seq<char>>) -> Seq<Seq<char>>
    decreases paths.len(),
{
    if paths.len() == 0 {
        paths
    } else if set_matches(set, paths.last()) {
        unmatched_by(set, paths.drop_last())
    } else {
        unmatched_by(set, paths.drop_last()).push(paths.last())
    }
}

/// A set that matches as `patterns` do leaves out what they leave out.
pub proof fn lemma_unmatched_by(set: globset::GlobSet, patterns: Seq<Seq<char>>, paths: Seq<Seq<char>>)
    requires
        matches_as(set, patterns),
    ensures
        unmatched_by(set, paths) == unmatched(patterns, paths),
    decreases paths.len(),
{
    if paths.len() > 0 {
        lemma_unmatched_by(set, patterns, paths.drop_last());
        assert(set_matches(set, paths.last()) == any_matches(patterns, paths.last()));
    }
}

/// The paths `set` does not match, in order.
pub fn outside_of(set: &globset::GlobSet, paths: &[String]) -> (r: Vec<String>)
    ensures
        views(r@) == unmatched_by(*set, views(paths@)),
{
    let mut r: Vec<String> = Vec::new();
    let mut i: usize = 0;
    while i < paths.len()
        invariant
            i <= paths@.len(),
            views(r@) == unmatched_by(*set, views(paths@.take(i as int))),
        decreases paths@.len() - i,
    {
        let ghost before = views(r@);
        assert(views(paths@.take(i + 1)).drop_last() =~= views(paths@.take(i as int)));
        assert(views(paths@.take(i + 1)).last() == paths@[i as int]@);
        if !set_is_match(set, paths[i].as_str()) {
            r.push(owned(paths[i].as_str()));
            assert(views(r@) =~= before.push(paths@[i as int]@));
        }
        i += 1;
    }
    assert(paths@.take(i as int) =~= paths@);
    r
}

/// What can go wrong playing the gates, beyond what a gate decides.
#[derive(Debug)]
pub enum GateError {
    Git(crate::git::GitError),
    /// A file that could not be read, and why.
    Unreadable(String, String),
    /// The mutation campaign could not be read.
    Mutants(String),
    /// The mechanical security report could not be read.
    Security(String),
    /// A pattern that is not a usable path pattern.
    BadPattern { pattern: String, source: globset::Error },
}

/// Each pattern the first time it comes.
pub open spec fn first_occurrences(s: Seq<Seq<char>>) -> Seq<Seq<char>>
    decreases s.len(),
{
    if s.len() == 0 {
        Seq::empty()
    } else if s.drop_last().contains(s.last()) {
        first_occurrences(s.drop_last())
    } else {
        first_occurrences(s.drop_last()).push(s.last())
    }
}

/// A pattern, and — for `a/**` — `a` too: a project writing `src/vendor/**`
/// means the directory and everything under it, and `a/**` does not match
/// `a` itself.
pub open spec fn with_directory(p: Seq<char>) -> Seq<Seq<char>> {
    if crate::text::has_suffix(p, "/**"@) { seq![p, p.subrange(0, p.len() - 3)] } else { seq![p] }
}

/// The patterns a list compiles to, in order.
pub open spec fn expanded(ps: Seq<Seq<char>>) -> Seq<Seq<char>>
    decreases ps.len(),
{
    if ps.len() == 0 { Seq::empty() } else { expanded(ps.drop_last()) + with_directory(ps.last()) }
}

/// The first pattern, in order, that `globset` refuses — itself, or the
/// directory it stands for.
pub open spec fn first_refused(ps: Seq<Seq<char>>) -> Option<Seq<char>>
    decreases ps.len(),
{
    if ps.len() == 0 {
        None
    } else {
        match first_refused(ps.drop_last()) {
            Some(p) => Some(p),
            None => {
                let p = ps.last();
                if exists|i: int| 0 <= i < with_directory(p).len() && !glob_accepts(#[trigger] with_directory(p)[i]) {
                    Some(p)
                } else {
                    None
                }
            },
        }
    }
}

/// What compiling a list of patterns gives: the set of the patterns each
/// taken once, with the directory of each `a/**`; or the first pattern
/// `globset` refuses; or, when the set itself cannot be built, all of them.
pub open spec fn compiled(patterns: Seq<Seq<char>>, r: Result<globset::GlobSet, GateError>) -> bool {
    let ps = first_occurrences(patterns);
    match first_refused(ps) {
        Some(p) => r matches Err(GateError::BadPattern { pattern, .. }) && pattern@ == p,
        None => if set_builds(expanded(ps)) {
            r matches Ok(s) && matches_as(s, expanded(ps))
        } else {
            r matches Err(GateError::BadPattern { pattern, .. }) && pattern@ == crate::text::join(patterns, ", "@)
        },
    }
}

/// Path patterns, compiled once: public because a push judges the
/// integrator's commits by the very allowlist gate 4 judged them by.
pub fn compile(patterns: &[String]) -> (r: Result<globset::GlobSet, GateError>)
    ensures
        compiled(views(patterns@), r),
{
    let mut builder = new_builder();
    let mut added: Vec<String> = Vec::new();
    let mut i: usize = 0;
    while i < patterns.len()
        invariant
            i <= patterns@.len(),
            views(added@) == first_occurrences(views(patterns@).take(i as int)),
            first_refused(views(added@)) is None,
            builder_globs(builder) == expanded(views(added@)),
        decreases patterns@.len() - i,
    {
        let ghost pre = views(patterns@).take(i as int);
        let ghost now = views(patterns@).take(i + 1);
        assert(now.drop_last() =~= pre);
        assert(now.last() == patterns@[i as int]@);
        let mut seen = false;
        let mut j: usize = 0;
        while j < i
            invariant
                i < patterns@.len(),
                j <= i,
                seen == exists|k: int| 0 <= k < j && patterns@[k]@ == patterns@[i as int]@,
            decreases i - j,
        {
            if !seen && str_eq(patterns[j].as_str(), patterns[i].as_str()) {
                seen = true;
            }
            j += 1;
        }
        proof {
            if seen {
                let k = choose|k: int| 0 <= k < i && patterns@[k]@ == patterns@[i as int]@;
                assert(pre[k] == now.last());
            } else {
                assert(!pre.contains(now.last())) by {
                    if pre.contains(now.last()) {
                        let k = choose|k: int| 0 <= k < pre.len() && pre[k] == now.last();
                        assert(patterns@[k]@ == patterns@[i as int]@);
                    }
                }
            }
        }
        if !seen {
            let p = patterns[i].as_str();
            let ghost d = with_directory(p@);
            let ghost ps = views(added@).push(p@);
            assert(ps.drop_last() =~= views(added@));
            let g = match new_glob(p) {
                Ok(g) => g,
                Err(source) => {
                    proof {
                        assert(ps.last() == p@);
                        assert(first_refused(ps.drop_last()) is None);
                        assert(d[0] == p@);
                        assert(!glob_accepts(with_directory(ps.last())[0]));
                        assert(first_refused(ps) is Some);
                        lemma_refused_stays(ps, first_occurrences(views(patterns@)), views(patterns@), i + 1);
                    }
                    return Err(GateError::BadPattern { pattern: owned(p), source });
                },
            };
            add_glob(&mut builder, g);
            if crate::text::str_ends_with(p, "/**") {
                proof {
                    reveal_strlit("/**");
                }
                let v = chars_of(p);
                let prefix = string_of(v.as_slice(), 0, v.len() - 3);
                match new_glob(prefix.as_str()) {
                    Ok(g2) => {
                        add_glob(&mut builder, g2);
                    },
                    Err(source) => {
                        proof {
                            assert(prefix@ == d[1]);
                            assert(!glob_accepts(d[1]));
                            assert(ps.last() == p@);
                            assert(first_refused(ps.drop_last()) is None);
                            assert(!glob_accepts(with_directory(ps.last())[1]));
                            assert(first_refused(ps) is Some);
                            lemma_refused_stays(ps, first_occurrences(views(patterns@)), views(patterns@), i + 1);
                        }
                        return Err(GateError::BadPattern { pattern: owned(p), source });
                    },
                }
                proof {
                    assert(builder_globs(builder) =~= expanded(views(added@)) + d);
                    assert forall|k: int| 0 <= k < d.len() implies glob_accepts(#[trigger] d[k]) by {}
                }
            } else {
                proof {
                    assert(builder_globs(builder) =~= expanded(views(added@)) + d);
                }
            }
            added.push(patterns[i].clone());
            assert(views(added@) =~= ps);
        }
        i += 1;
    }
    assert(views(patterns@).take(i as int) =~= views(patterns@));
    match build_set(&builder) {
        Ok(set) => Ok(set),
        Err(source) => Err(GateError::BadPattern { pattern: join_strings(patterns, ", "), source }),
    }
}

/// Once a pattern of a prefix of the list is refused, the rest of the list
/// changes nothing: the first refused is the same.
proof fn lemma_refused_stays(ps: Seq<Seq<char>>, all_ps: Seq<Seq<char>>, patterns: Seq<Seq<char>>, k: int)
    requires
        0 <= k <= patterns.len(),
        ps == first_occurrences(patterns.take(k)),
        first_refused(ps) is Some,
        all_ps == first_occurrences(patterns),
    ensures
        first_refused(all_ps) == first_refused(ps),
    decreases patterns.len() - k,
{
    if k < patterns.len() {
        let next = first_occurrences(patterns.take(k + 1));
        assert(patterns.take(k + 1).drop_last() =~= patterns.take(k));
        assert(next == ps || next == ps.push(patterns[k]));
        if next != ps {
            assert(next.drop_last() =~= ps);
        }
        lemma_refused_stays(next, all_ps, patterns, k + 1);
    } else {
        assert(patterns.take(k) =~= patterns);
    }
}

/// Whether a gate's result is the decision a reason gives: red for it, or
/// green without one.
pub open spec fn decided(r: Result<Decision, GateError>, why: Option<Seq<char>>) -> bool {
    match r {
        Ok(d) => match why {
            Some(w) => failed_with(d, w),
            None => d == Decision::Passed,
        },
        Err(_) => false,
    }
}

/// Whether a list of patterns compiles.
pub open spec fn compiles(ps: Seq<Seq<char>>) -> bool {
    first_refused(first_occurrences(ps)) is None && set_builds(expanded(first_occurrences(ps)))
}

/// The patterns a list that compiles is matched by.
pub open spec fn patterns_of(ps: Seq<Seq<char>>) -> Seq<Seq<char>> {
    expanded(first_occurrences(ps))
}

/// Where each touched path was seen: the diff against the base, or a named
/// commit.
pub open spec fn seen_views(seen: Seq<(String, String)>) -> Seq<(Seq<char>, Seq<char>)> {
    seen.map_values(|p: (String, String)| (p.0@, p.1@))
}

/// Whether the coder's gate 4 stops at a path: refused outright, or refused
/// where it exists on the base and it does.
pub open spec fn coder_stops(refuse: Seq<Seq<char>>, if_exists: Seq<Seq<char>>, on_base: Seq<Seq<char>>, path: Seq<char>) -> bool {
    any_matches(refuse, path) || (any_matches(if_exists, path) && on_base.contains(path))
}

/// The coder's gate 4, once its patterns compile.
pub open spec fn spec_coder_perimeter(refuse: Seq<Seq<char>>, if_exists: Seq<Seq<char>>, on_base: Seq<Seq<char>>,
    base: Seq<char>, seen: Seq<(Seq<char>, Seq<char>)>) -> Option<Seq<char>>
{
    let k = crate::text::first_from(0, seen.len() as int, |i: int| coder_stops(refuse, if_exists, on_base, seen[i].0));
    if k >= seen.len() {
        None
    } else if any_matches(refuse, seen[k].0) {
        Some(seen[k].0 + " is a protected path of this project, and "@ + seen[k].1 + " touches it"@)
    } else {
        Some(seen[k].0 + " already exists on "@ + base + " and is protected there, and "@ + seen[k].1 + " touches it"@)
    }
}

proof fn lemma_none_stops(lo: int, hi: int, p: spec_fn(int) -> bool)
    requires
        lo <= hi,
        forall|j: int| lo <= j < hi ==> !#[trigger] p(j),
    ensures
        crate::text::first_from(lo, hi, p) == hi,
    decreases hi - lo,
{
    if lo < hi {
        lemma_none_stops(lo + 1, hi, p);
    }
}

/// Gate 4 for the coder stops only on a protected path: a path no
/// refused pattern matches, and that does not exist on the base, never makes
/// it red — a file the coder just created is not refused for existing —
/// and when it is red for a path existing on the base, that path is one
/// the base holds.
pub proof fn law_coder_perimeter(refuse: Seq<Seq<char>>, if_exists: Seq<Seq<char>>, on_base: Seq<Seq<char>>, base: Seq<char>,
    seen: Seq<(Seq<char>, Seq<char>)>)
    ensures
        (forall|i: int| 0 <= i < seen.len() ==> !any_matches(refuse, #[trigger] seen[i].0) && !on_base.contains(seen[i].0))
            ==> spec_coder_perimeter(refuse, if_exists, on_base, base, seen) is None,
        spec_coder_perimeter(refuse, if_exists, on_base, base, seen) matches Some(w) ==> exists|k: int| 0 <= k < seen.len()
            && (any_matches(refuse, #[trigger] seen[k].0) || on_base.contains(seen[k].0))
            && (w == seen[k].0 + " is a protected path of this project, and "@ + seen[k].1 + " touches it"@
                || (on_base.contains(seen[k].0) && w == seen[k].0 + " already exists on "@ + base
                    + " and is protected there, and "@ + seen[k].1 + " touches it"@)),
{
    let p = |i: int| coder_stops(refuse, if_exists, on_base, seen[i].0);
    if forall|i: int| 0 <= i < seen.len() ==> !any_matches(refuse, #[trigger] seen[i].0) && !on_base.contains(seen[i].0) {
        assert forall|j: int| 0 <= j < seen.len() implies !#[trigger] p(j) by {
            assert(!any_matches(refuse, seen[j].0) && !on_base.contains(seen[j].0));
        }
        lemma_none_stops(0, seen.len() as int, p);
    }
    crate::text::lemma_first_from_bounds(0, seen.len() as int, p);
}

pub(crate) fn contains_string(items: &[String], x: &str) -> (b: bool)
    ensures
        b == views(items@).contains(x@),
{
    let mut i: usize = 0;
    while i < items.len()
        invariant
            i <= items@.len(),
            forall|k: int| 0 <= k < i ==> items@[k]@ != x@,
        decreases items@.len() - i,
    {
        if str_eq(items[i].as_str(), x) {
            assert(views(items@)[i as int] == x@);
            return true;
        }
        i += 1;
    }
    assert(!views(items@).contains(x@)) by {
        if views(items@).contains(x@) {
            let k = choose|k: int| 0 <= k < views(items@).len() && views(items@)[k] == x@;
            assert(items@[k]@ == x@);
        }
    }
    false
}

/// The paths, among those seen, whose existence on the base the coder's
/// gate 4 asks about: those a refused-if-exists pattern matches. The program
/// around this crate asks git (`cat-file -e <base>:<path>`) about each.
pub fn base_lookups(protected: &crate::project::ProtectedPaths, seen: &[(String, String)]) -> (r: Result<Vec<String>, GateError>)
    ensures
        compiles(views(protected.refuse_if_exists@)) ==> (r matches Ok(v) && views(v@) == seen_views(seen@)
            .map_values(|p: (Seq<char>, Seq<char>)| p.0)
            .filter(|path: Seq<char>| any_matches(patterns_of(views(protected.refuse_if_exists@)), path))),
        !compiles(views(protected.refuse_if_exists@)) ==> r is Err,
{
    let set = match compile(protected.refuse_if_exists.as_slice()) {
        Ok(s) => s,
        Err(e) => return Err(e),
    };
    let ghost pats = patterns_of(views(protected.refuse_if_exists@));
    let ghost paths = seen_views(seen@).map_values(|p: (Seq<char>, Seq<char>)| p.0);
    let ghost keep = |path: Seq<char>| any_matches(pats, path);
    let mut r: Vec<String> = Vec::new();
    let mut i: usize = 0;
    while i < seen.len()
        invariant
            matches_as(set, pats),
            keep == (|path: Seq<char>| any_matches(pats, path)),
            paths == seen_views(seen@).map_values(|p: (Seq<char>, Seq<char>)| p.0),
            i <= seen@.len(),
            views(r@) == paths.take(i as int).filter(keep),
        decreases seen@.len() - i,
    {
        proof {
            assert(paths.take(i + 1).drop_last() =~= paths.take(i as int));
            assert(paths.take(i + 1).last() == seen@[i as int].0@);
            reveal_with_fuel(Seq::filter, 2);
        }
        if set_is_match(&set, seen[i].0.as_str()) {
            let ghost before = views(r@);
            r.push(seen[i].0.clone());
            assert(views(r@) =~= before.push(seen@[i as int].0@));
        }
        i += 1;
    }
    assert(paths.take(i as int) =~= paths);
    Ok(r)
}

/// The coder's gate 4 is a denylist: the project's protected paths, refused
/// outright or refused where the file already exists on the base — a
/// question about the base, not about the slot's tree, where the agent may
/// have just created or deleted it. `on_base` holds the paths among
/// [`base_lookups`] that exist on the base.
pub fn coder_perimeter(protected: &crate::project::ProtectedPaths, base: &Rev, seen: &[(String, String)], on_base: &[String])
    -> (r: Result<Decision, GateError>)
    ensures
        compiles(views(protected.refuse@)) && compiles(views(protected.refuse_if_exists@)) ==> decided(r, spec_coder_perimeter(
            patterns_of(views(protected.refuse@)), patterns_of(views(protected.refuse_if_exists@)), views(on_base@),
            base@, seen_views(seen@))),
        !(compiles(views(protected.refuse@)) && compiles(views(protected.refuse_if_exists@))) ==> r is Err,
{
    let refuse = match compile(protected.refuse.as_slice()) {
        Ok(s) => s,
        Err(e) => return Err(e),
    };
    let if_exists = match compile(protected.refuse_if_exists.as_slice()) {
        Ok(s) => s,
        Err(e) => return Err(e),
    };
    let ghost rp = patterns_of(views(protected.refuse@));
    let ghost ep = patterns_of(views(protected.refuse_if_exists@));
    let ghost sv = seen_views(seen@);
    let ghost n = seen@.len() as int;
    let ghost stops = |i: int| coder_stops(rp, ep, views(on_base@), sv[i].0);
    let mut i: usize = 0;
    while i < seen.len()
        invariant
            compiles(views(protected.refuse@)) && compiles(views(protected.refuse_if_exists@)),
            rp == patterns_of(views(protected.refuse@)),
            ep == patterns_of(views(protected.refuse_if_exists@)),
            matches_as(refuse, rp),
            matches_as(if_exists, ep),
            sv == seen_views(seen@),
            n == seen@.len(),
            stops == (|i: int| coder_stops(rp, ep, views(on_base@), sv[i].0)),
            i <= n,
            crate::text::first_from(0, n, stops) == crate::text::first_from(i as int, n, stops),
        decreases n - i,
    {
        let path = seen[i].0.as_str();
        let where_ = seen[i].1.as_str();
        assert(sv[i as int] == (path@, where_@));
        if set_is_match(&refuse, path) {
            assert(any_matches(rp, path@));
            assert(stops(i as int));
            assert(crate::text::first_from(i as int, n, stops) == i);
            let mut w = owned(path);
            push_str(&mut w, " is a protected path of this project, and ");
            push_str(&mut w, where_);
            push_str(&mut w, " touches it");
            assert(spec_coder_perimeter(rp, ep, views(on_base@), base@, sv) == Some(w@));
            return Ok(Decision::Failed(w));
        }
        if set_is_match(&if_exists, path) && contains_string(on_base, path) {
            assert(stops(i as int));
            assert(crate::text::first_from(i as int, n, stops) == i);
            let mut w = owned(path);
            push_str(&mut w, " already exists on ");
            push_str(&mut w, base.as_str());
            push_str(&mut w, " and is protected there, and ");
            push_str(&mut w, where_);
            push_str(&mut w, " touches it");
            return Ok(Decision::Failed(w));
        }
        proof {
            crate::text::lemma_first_from_skip(i as int, i + 1, n, stops);
        }
        i += 1;
    }
    Ok(Decision::Passed)
}

/// The integrator's gate 4 once its wiring compiles: the first path seen
/// outside the wiring list, if any.
pub open spec fn spec_outside_wiring(wiring: Seq<Seq<char>>, seen: Seq<(Seq<char>, Seq<char>)>) -> Option<Seq<char>> {
    let k = crate::text::first_from(0, seen.len() as int, |i: int| !any_matches(wiring, seen[i].0));
    if k >= seen.len() {
        None
    } else {
        Some(seen[k].0 + " is not in this mission's wiring list, and "@ + seen[k].1 + " touches it"@)
    }
}

/// The integrator's gate 4 is an allowlist, the inverse of the coder's:
/// wiring is the path list the mission declares, and every commit outside
/// it is out of perimeter. `commits` is how many commits the branch holds
/// since the coder's gates were green.
pub fn integrator_perimeter(integration: &crate::mission::Integration, seen: &[(String, String)], commits: usize)
    -> (r: Result<Decision, GateError>)
    ensures
        match *integration {
            crate::mission::Integration::Declined { reason } => r matches Ok(d) && failed_with(d,
                "this mission declares no integration ("@ + reason@
                + "), so no wiring list exists to judge an integrator's commits against"@),
            crate::mission::Integration::Services { wiring, .. } => if wiring@.len() == 0 {
                if commits == 0 {
                    r matches Ok(d) && d == Decision::Passed
                } else {
                    r matches Ok(d) && failed_with(d, "the mission declares no wiring, so every commit is out of perimeter — "@
                        + spec_decimal(commits as nat) + " commit(s) are on this branch; declare `--wiring` at framing"@)
                }
            } else if compiles(views(wiring@)) {
                decided(r, spec_outside_wiring(patterns_of(views(wiring@)), seen_views(seen@)))
            } else {
                r is Err
            },
        },
{
    let wiring = match integration {
        crate::mission::Integration::Services { wiring, .. } => wiring,
        crate::mission::Integration::Declined { reason } => {
            let mut w = owned("this mission declares no integration (");
            push_str(&mut w, reason.as_str());
            push_str(&mut w, "), so no wiring list exists to judge an integrator's commits against");
            return Ok(Decision::Failed(w));
        },
    };
    if wiring.len() == 0 {
        if commits == 0 {
            return Ok(Decision::Passed);
        }
        let mut w = owned("the mission declares no wiring, so every commit is out of perimeter — ");
        push_str(&mut w, decimal(commits as u64).as_str());
        push_str(&mut w, " commit(s) are on this branch; declare `--wiring` at framing");
        return Ok(Decision::Failed(w));
    }
    let allowed = match compile(wiring.as_slice()) {
        Ok(s) => s,
        Err(e) => return Err(e),
    };
    let ghost wp = patterns_of(views(wiring@));
    let ghost sv = seen_views(seen@);
    let ghost n = seen@.len() as int;
    let ghost outside = |i: int| !any_matches(wp, sv[i].0);
    let mut i: usize = 0;
    while i < seen.len()
        invariant
            (*integration matches crate::mission::Integration::Services { wiring: w, .. } && w == *wiring),
            wiring@.len() > 0,
            compiles(views(wiring@)),
            wp == patterns_of(views(wiring@)),
            matches_as(allowed, wp),
            sv == seen_views(seen@),
            n == seen@.len(),
            outside == (|i: int| !any_matches(wp, sv[i].0)),
            i <= n,
            crate::text::first_from(0, n, outside) == crate::text::first_from(i as int, n, outside),
        decreases n - i,
    {
        let path = seen[i].0.as_str();
        assert(sv[i as int] == (path@, seen@[i as int].1@));
        if !set_is_match(&allowed, path) {
            assert(outside(i as int));
            assert(crate::text::first_from(i as int, n, outside) == i);
            let mut w = owned(path);
            push_str(&mut w, " is not in this mission's wiring list, and ");
            push_str(&mut w, seen[i].1.as_str());
            push_str(&mut w, " touches it");
            return Ok(Decision::Failed(w));
        }
        proof {
            crate::text::lemma_first_from_skip(i as int, i + 1, n, outside);
        }
        i += 1;
    }
    Ok(Decision::Passed)
}

/// Gate 4 before any path is looked at: it does not apply to the security
/// agent, and the integrator's cannot be played until the coder's gates
/// were green on a recorded commit. `None` when the paths decide.
pub fn perimeter_applies(role: Role, coder_head: Option<&str>) -> (d: Option<Decision>)
    ensures
        role == Role::Security ==> (d matches Some(x) && not_applicable_with(x, read_only_tree())),
        role == Role::Integrator && coder_head is None ==> (d matches Some(x) && unplayed_with(x,
            "no commit is recorded for the coder's green gates, so nothing tells the integrator's commits from the coder's"@)),
        role == Role::Coder || (role == Role::Integrator && coder_head is Some) ==> d is None,
{
    match role {
        Role::Security => Some(Decision::NotApplicable(read_only_tree_text())),
        Role::Integrator => {
            if coder_head.is_none() {
                Some(Decision::Unplayed(owned("no commit is recorded for the coder's green gates, so nothing tells the integrator's commits from the coder's")))
            } else {
                None
            }
        },
        Role::Coder => None,
    }
}

/// Where a path was seen when the diff against the base names it.
pub open spec fn in_the_diff() -> Seq<char> { "the diff against the base"@ }

/// The paths a branch touched, and where each was seen: `diff` is what
/// `git diff --name-only <base>...HEAD` printed, and each commit comes with
/// what `git diff-tree --no-commit-id --name-only -r <commit>` printed for
/// it — two passes, because a forbidden commit that is then reverted leaves
/// an innocent diff. A commit is named by its first seven bytes.
pub fn seen_paths(diff: &str, commits: &[(String, String)]) -> (r: Vec<(String, String)>)
    requires
        forall|i: int| 0 <= i < commits@.len() ==> crate::text::bytes_end_on_char(#[trigger] commits@[i].0@, 7),
    ensures
        seen_views(r@) == touched_seen(diff@, commits@),
{
    let mut r: Vec<(String, String)> = Vec::new();
    push_lines(&mut r, diff, "the diff against the base");
    let ghost first = seen_views(r@);
    let mut i: usize = 0;
    while i < commits.len()
        invariant
            forall|i: int| 0 <= i < commits@.len() ==> crate::text::bytes_end_on_char(#[trigger] commits@[i].0@, 7),
            i <= commits@.len(),
            seen_views(r@) == touched_seen(diff@, commits@.take(i as int)),
        decreases commits@.len() - i,
    {
        assert(commits@.take(i + 1).drop_last() =~= commits@.take(i as int));
        let mut name = owned("commit ");
        push_str(&mut name, crate::text::prefix_bytes(commits[i].0.as_str(), 7));
        push_lines(&mut r, commits[i].1.as_str(), name.as_str());
        i += 1;
    }
    assert(commits@.take(i as int) =~= commits@);
    r
}

/// The non-empty lines of `text`, each with where it was seen.
pub open spec fn tagged_lines(text: Seq<char>, at: Seq<char>) -> Seq<(Seq<char>, Seq<char>)> {
    lines(text).filter(|l: Seq<char>| l.len() > 0).map_values(|l: Seq<char>| (l, at))
}

/// What a branch touched, as [`seen_paths`] gathers it.
pub open spec fn touched_seen(diff: Seq<char>, commits: Seq<(String, String)>) -> Seq<(Seq<char>, Seq<char>)>
    decreases commits.len(),
{
    if commits.len() == 0 {
        tagged_lines(diff, in_the_diff())
    } else {
        touched_seen(diff, commits.drop_last())
            + tagged_lines(commits.last().1@, "commit "@ + crate::text::take_bytes(commits.last().0@, 7))
    }
}

/// The paths a listing names: its non-empty lines.
pub open spec fn listed(text: Seq<char>) -> Set<Seq<char>> {
    lines(text).filter(|l: Seq<char>| l.len() > 0).to_set()
}

/// The paths git named for a branch: those of the diff against the base,
/// and those of each commit's own listing.
pub open spec fn named_paths(diff: Seq<char>, commits: Seq<(String, String)>) -> Set<Seq<char>>
    decreases commits.len(),
{
    if commits.len() == 0 {
        listed(diff)
    } else {
        named_paths(diff, commits.drop_last()) + listed(commits.last().1@)
    }
}

proof fn lemma_concat_set<A>(a: Seq<A>, b: Seq<A>)
    ensures
        (a + b).to_set() == a.to_set() + b.to_set(),
{
    assert forall|x: A| (a + b).to_set().contains(x) == (a.to_set() + b.to_set()).contains(x) by {
        if (a + b).contains(x) {
            let i = choose|i: int| 0 <= i < (a + b).len() && (a + b)[i] == x;
            if i < a.len() {
                assert(a[i] == x);
            } else {
                assert(b[i - a.len()] == x);
            }
        }
        if a.contains(x) {
            let i = choose|i: int| 0 <= i < a.len() && a[i] == x;
            assert((a + b)[i] == x);
        }
        if b.contains(x) {
            let i = choose|i: int| 0 <= i < b.len() && b[i] == x;
            assert((a + b)[a.len() + i] == x);
        }
    }
    assert((a + b).to_set() =~= a.to_set() + b.to_set());
}

/// The paths a branch touched are exactly the paths git named for it: every
/// non-empty line of the diff against the base and of each commit's
/// listing, and nothing else. With [`seen_paths`], which gathers them, and
/// [`touched_paths`], which keeps each once in order, a campaign runs on
/// what git named, sorted, each path once.
pub proof fn law_touched_is_what_git_named(diff: Seq<char>, commits: Seq<(String, String)>)
    ensures
        touched_seen(diff, commits).map_values(|p: (Seq<char>, Seq<char>)| p.0).to_set() == named_paths(diff, commits),
    decreases commits.len(),
{
    let f = |p: (Seq<char>, Seq<char>)| p.0;
    if commits.len() == 0 {
        let t = tagged_lines(diff, in_the_diff());
        assert(t.map_values(f) =~= lines(diff).filter(|l: Seq<char>| l.len() > 0));
    } else {
        law_touched_is_what_git_named(diff, commits.drop_last());
        let a = touched_seen(diff, commits.drop_last());
        let t = tagged_lines(commits.last().1@, "commit "@ + crate::text::take_bytes(commits.last().0@, 7));
        assert((a + t).map_values(f) =~= a.map_values(f) + t.map_values(f));
        assert(t.map_values(f) =~= lines(commits.last().1@).filter(|l: Seq<char>| l.len() > 0));
        lemma_concat_set(a.map_values(f), t.map_values(f));
    }
}

fn push_lines(out: &mut Vec<(String, String)>, text: &str, at: &str)
    ensures
        seen_views(final(out)@) == seen_views(old(out)@) + tagged_lines(text@, at@),
{
    let ls = text_lines(text);
    let ghost start = seen_views(out@);
    let ghost keep = |l: Seq<char>| l.len() > 0;
    let mut i: usize = 0;
    while i < ls.len()
        invariant
            views(ls@) == lines(text@),
            keep == (|l: Seq<char>| l.len() > 0),
            i <= ls@.len(),
            seen_views(out@) == start + lines(text@).take(i as int).filter(keep).map_values(|l: Seq<char>| (l, at@)),
        decreases ls@.len() - i,
    {
        proof {
            assert(lines(text@).take(i + 1).drop_last() =~= lines(text@).take(i as int));
            assert(lines(text@).take(i + 1).last() == ls@[i as int]@);
            reveal_with_fuel(Seq::filter, 2);
        }
        if !ls[i].as_str().is_empty() {
            let ghost before = seen_views(out@);
            out.push((ls[i].clone(), owned(at)));
            proof {
                let f = lines(text@).take(i as int).filter(keep);
                assert(lines(text@).take(i + 1).filter(keep) == f.push(ls@[i as int]@));
                assert(seen_views(out@) =~= before.push((ls@[i as int]@, at@)));
                assert(f.push(ls@[i as int]@).map_values(|l: Seq<char>| (l, at@))
                    =~= f.map_values(|l: Seq<char>| (l, at@)).push((ls@[i as int]@, at@)));
            }
        }
        i += 1;
    }
    assert(lines(text@).take(i as int) =~= lines(text@));
}

/// The paths a mutation campaign runs on: what this branch touched, once
/// each, in a stable order.
pub fn touched_paths(seen: &[(String, String)]) -> (r: Vec<String>)
    ensures
        crate::text::strictly_sorted(views(r@)),
        views(r@).to_set() == seen_views(seen@).map_values(|p: (Seq<char>, Seq<char>)| p.0).to_set(),
{
    let mut paths: Vec<String> = Vec::new();
    let mut i: usize = 0;
    while i < seen.len()
        invariant
            i <= seen@.len(),
            views(paths@) == seen_views(seen@).map_values(|p: (Seq<char>, Seq<char>)| p.0).take(i as int),
        decreases seen@.len() - i,
    {
        let ghost before = views(paths@);
        let ghost all = seen_views(seen@).map_values(|p: (Seq<char>, Seq<char>)| p.0);
        paths.push(seen[i].0.clone());
        assert(all[i as int] == seen@[i as int].0@);
        assert(views(paths@) =~= before.push(seen@[i as int].0@));
        assert(all.take(i + 1) =~= all.take(i as int).push(all[i as int]));
        i += 1;
    }
    assert(seen_views(seen@).map_values(|p: (Seq<char>, Seq<char>)| p.0).take(i as int)
        =~= seen_views(seen@).map_values(|p: (Seq<char>, Seq<char>)| p.0));
    crate::text::sorted_unique(paths.as_slice())
}

/// Where a stack fragment declares what must be silent before anything
/// leaves a slot.
pub const BATTERY: &'static str = "prepush.sh";
/// Where an integration mission declares its system tests.
pub const SYSTEM_BATTERY: &'static str = "system.sh";
/// Where a stack fragment declares its mechanical security.
pub const SECURITY: &'static str = "security.sh";

/// Gate 5, the deliverable this role owes, for the files as read. The coder
/// and the integrator owe `PR.md` (`pr`, shown as `pr_name`) — the
/// integrator's completed with its own section, decided mechanically by a
/// heading. The security agent commits nothing: it owes its report, inside
/// `VERDICT.json` (`verdict`, shown as `verdict_name`), and `parsed` is what
/// reading it as a verdict gave: its report, or why it could not be read.
pub fn deliverable(role: Role, pr_name: &str, pr: &str, verdict_name: &str, verdict: &str, parsed: Result<String, String>)
    -> (d: Decision)
    ensures
        role == Role::Security ==> if trim(verdict@).len() == 0 {
            failed_with(d, verdict_name@ + " is empty: the security agent's deliverable is its report, and it writes it there"@)
        } else {
            match parsed {
                Err(e) => failed_with(d, verdict_name@ + " is not a verdict `nunki` can read: "@ + e@),
                Ok(report) => if trim(report@).len() == 0 {
                    failed_with(d, verdict_name@ + " carries a verdict but no report, and the report is the deliverable"@)
                } else {
                    d == Decision::Passed
                },
            }
        },
        role != Role::Security ==> if trim(pr@).len() == 0 {
            failed_with(d, pr_name@ + " is empty: a mission's deliverable is the pull request it describes"@)
        } else if role == Role::Integrator
            && !(exists|i: int| 0 <= i < lines(pr@).len() && heading_begins(#[trigger] lines(pr@)[i], "integration"@)) {
            failed_with(d, pr_name@ + " has no `Integration` heading: the integrator completes the coder's pull request with its own section, and that heading is how `nunki` sees it"@)
        } else {
            d == Decision::Passed
        },
{
    if role == Role::Security {
        if trimmed(verdict).as_str().is_empty() {
            let mut w = owned(verdict_name);
            push_str(&mut w, " is empty: the security agent's deliverable is its report, and it writes it there");
            return Decision::Failed(w);
        }
        return match parsed {
            Err(e) => {
                let mut w = owned(verdict_name);
                push_str(&mut w, " is not a verdict `nunki` can read: ");
                push_str(&mut w, e.as_str());
                Decision::Failed(w)
            },
            Ok(report) => {
                if trimmed(report.as_str()).as_str().is_empty() {
                    let mut w = owned(verdict_name);
                    push_str(&mut w, " carries a verdict but no report, and the report is the deliverable");
                    Decision::Failed(w)
                } else {
                    Decision::Passed
                }
            },
        };
    }
    if trimmed(pr).as_str().is_empty() {
        let mut w = owned(pr_name);
        push_str(&mut w, " is empty: a mission's deliverable is the pull request it describes");
        return Decision::Failed(w);
    }
    if role == Role::Integrator && !has_heading(pr, "integration") {
        let mut w = owned(pr_name);
        push_str(&mut w, " has no `Integration` heading: the integrator completes the coder's pull request with its own section, and that heading is how `nunki` sees it");
        return Decision::Failed(w);
    }
    Decision::Passed
}

/// The script a role's battery is: the integrator's is its system tests.
pub open spec fn battery_script(role: Role) -> Seq<char> {
    if role == Role::Integrator { "system.sh"@ } else { "prepush.sh"@ }
}

/// A shell probe that tells an absent script (66) and one that is not
/// executable (67) from the script's own status, then runs it with `args`.
pub open spec fn spec_probe(at: Seq<char>, args: Seq<char>) -> Seq<char> {
    "if [ ! -f "@ + at + " ]; then exit 66; fi\nif [ ! -x "@ + at + " ]; then exit 67; fi\nexec "@ + at + args + "\n"@
}

fn probe(at: &str, args: &str) -> (r: String)
    ensures
        r@ == spec_probe(at@, args@),
{
    let mut r = owned("if [ ! -f ");
    push_str(&mut r, at);
    push_str(&mut r, " ]; then exit 66; fi\nif [ ! -x ");
    push_str(&mut r, at);
    push_str(&mut r, " ]; then exit 67; fi\nexec ");
    push_str(&mut r, at);
    push_str(&mut r, args);
    push_str(&mut r, "\n");
    r
}

/// Where a role's battery is, in the container: in the stack's directory
/// mounted at `stack_at`.
pub open spec fn battery_at(role: Role, stack_at: Seq<char>) -> Seq<char> {
    stack_at + "/"@ + battery_script(role)
}

fn battery_path(role: Role, stack_at: &str) -> (r: String)
    ensures
        r@ == battery_at(role, stack_at@),
{
    let mut at = owned(stack_at);
    push_str(&mut at, "/");
    push_str(&mut at, match role { Role::Integrator => "system.sh", _ => "prepush.sh" });
    at
}

/// The probe that runs a role's battery in the clean copy of `HEAD`.
pub fn battery_probe(role: Role, stack_at: &str) -> (r: String)
    ensures
        r@ == spec_probe(battery_at(role, stack_at@), Seq::empty()),
{
    let at = battery_path(role, stack_at);
    let r = probe(at.as_str(), "");
    proof {
        reveal_strlit("");
        assert(spec_probe(at@, ""@) =~= spec_probe(at@, Seq::empty()));
    }
    r
}

/// Gate 6 for what running the battery gave: the command's output, or why
/// the container could not run it. A battery that is absent or not
/// executable is red — a proof nobody can run is not a proof that
/// passed — and one that could not be run at all leaves it unplayed, a
/// verdict on the machine rather than on the agent.
pub fn battery(role: Role, stack_at: &str, out: Result<crate::engine::ExecOutput, String>) -> (d: Decision)
    ensures
        role == Role::Security ==> not_applicable_with(d,
            "the security agent attacks what is built; it owes findings, not a green battery"@),
        role != Role::Security ==> match out {
            Err(e) => unplayed_with(d, e@),
            Ok(o) => if o.status == 0 {
                d == Decision::Passed
            } else if o.status == 66 {
                failed_with(d, "there is no battery at "@ + battery_at(role, stack_at@)
                    + ": the stack in the project's home ships no "@ + battery_script(role)
                    + " — a proof nobody can run is not a proof that passed"@)
            } else if o.status == 67 {
                failed_with(d, battery_at(role, stack_at@) + " is not executable, so nothing ran"@)
            } else {
                failed_with(d, "the battery came back "@ + crate::text::spec_signed(o.status as int) + ":\n"@
                    + spec_tail(o.stderr@, o.stdout@))
            },
        },
{
    if role == Role::Security {
        return Decision::NotApplicable(owned("the security agent attacks what is built; it owes findings, not a green battery"));
    }
    let at = battery_path(role, stack_at);
    match out {
        Err(e) => Decision::Unplayed(e),
        Ok(o) => {
            if o.status == 0 {
                Decision::Passed
            } else if o.status == 66 {
                let mut w = owned("there is no battery at ");
                push_str(&mut w, at.as_str());
                push_str(&mut w, ": the stack in the project's home ships no ");
                push_str(&mut w, match role { Role::Integrator => "system.sh", _ => "prepush.sh" });
                push_str(&mut w, " — a proof nobody can run is not a proof that passed");
                Decision::Failed(w)
            } else if o.status == 67 {
                let mut w = at;
                push_str(&mut w, " is not executable, so nothing ran");
                Decision::Failed(w)
            } else {
                let mut w = owned("the battery came back ");
                push_str(&mut w, crate::text::signed_decimal(o.status as i64).as_str());
                push_str(&mut w, ":\n");
                push_str(&mut w, tail(o.stderr.as_str(), o.stdout.as_str()).as_str());
                Decision::Failed(w)
            }
        },
    }
}

/// Where the security script is, in the container.
pub open spec fn security_at(stack_at: Seq<char>) -> Seq<char> {
    stack_at + "/security.sh"@
}

/// The probe that runs the mechanical security in the clean copy of `HEAD`:
/// the script is given the base as a commit, the advisory database, the
/// mission folder and the secrets file, all as the container sees them.
pub fn security_probe(stack_at: &str, base: &str, advisories_at: &str, secrets_at: &str) -> (r: String)
    ensures
        r@ == spec_probe(security_at(stack_at@), " "@ + base@ + " "@ + advisories_at@ + " "@
            + "/work/mission"@ + " "@ + secrets_at@),
{
    let mut at = owned(stack_at);
    push_str(&mut at, "/security.sh");
    let mut args = owned(" ");
    push_str(&mut args, base);
    push_str(&mut args, " ");
    push_str(&mut args, advisories_at);
    push_str(&mut args, " ");
    push_str(&mut args, "/work/mission");
    push_str(&mut args, " ");
    push_str(&mut args, secrets_at);
    probe(at.as_str(), args.as_str())
}

/// What the findings that block say, and whether one of them is a secret.
pub open spec fn blocking_lines(fs: Seq<crate::security::Finding>) -> Seq<Seq<char>> {
    fs.filter(|f: crate::security::Finding| f.spec_blocks()).map_values(|f: crate::security::Finding| f.spec_say())
}

/// What the acceptances a fix has overtaken say.
pub open spec fn stale_lines(fs: Seq<crate::security::Finding>) -> Seq<Seq<char>> {
    fs.filter(|f: crate::security::Finding| f.spec_stale()).map_values(|f: crate::security::Finding| f.spec_say())
}

/// Gate 8 once the script has spoken: what the branch brought and nobody
/// ruled on is red, a secret naming the human's next gesture; then an
/// acceptance a fix has overtaken is red, for it is work an agent can do.
pub open spec fn spec_findings_verdict(fs: Seq<crate::security::Finding>) -> Option<Seq<char>> {
    let blocking = blocking_lines(fs);
    let stale = stale_lines(fs);
    if blocking.len() > 0 {
        let secret = exists|i: int| 0 <= i < fs.len() && (#[trigger] fs[i]).spec_blocks()
            && fs[i].kind == crate::security::Kind::Secret;
        Some(spec_decimal(blocking.len()) + " finding(s) this branch brought, and nobody has ruled on: "@
            + spec_head_of(blocking, 10)
            + if secret {
                ". A secret is yours to rule on: revoke it, then `nunki secret accept <id> --because <why>` so it stops being reported"@
            } else {
                Seq::empty()
            })
    } else if stale.len() > 0 {
        Some(spec_decimal(stale.len()) + " exception(s) a fix has overtaken — apply it and drop the exception: "@
            + spec_head_of(stale, 10))
    } else {
        None
    }
}

fn say_filtered(fs: &[crate::security::Finding], stale: bool) -> (r: Vec<String>)
    ensures
        views(r@) == if stale { stale_lines(fs@) } else { blocking_lines(fs@) },
{
    let ghost keep = if stale {
        |f: crate::security::Finding| f.spec_stale()
    } else {
        |f: crate::security::Finding| f.spec_blocks()
    };
    let mut r: Vec<String> = Vec::new();
    let mut i: usize = 0;
    while i < fs.len()
        invariant
            i <= fs@.len(),
            keep == (if stale { |f: crate::security::Finding| f.spec_stale() } else { |f: crate::security::Finding| f.spec_blocks() }),
            views(r@) == fs@.take(i as int).filter(keep).map_values(|f: crate::security::Finding| f.spec_say()),
        decreases fs@.len() - i,
    {
        proof {
            assert(fs@.take(i + 1).drop_last() =~= fs@.take(i as int));
            reveal_with_fuel(Seq::filter, 2);
        }
        let take = if stale { fs[i].stale() } else { fs[i].blocks() };
        if take {
            let said = fs[i].say();
            let ghost before = views(r@);
            r.push(said);
            proof {
                let f = fs@.take(i as int).filter(keep);
                assert(fs@.take(i + 1).filter(keep) == f.push(fs@[i as int]));
                assert(views(r@) =~= before.push(said@));
                assert(f.push(fs@[i as int]).map_values(|f: crate::security::Finding| f.spec_say())
                    =~= f.map_values(|f: crate::security::Finding| f.spec_say()).push(said@));
            }
        }
        i += 1;
    }
    assert(fs@.take(i as int) =~= fs@);
    r
}

/// Gate 8, the mechanical security the stack declares, for what running its
/// script gave: its status and the findings read from what it printed (or
/// why they could not be read), or why the container could not run it.
/// Absent, not executable, no advisory database, a base the copy lacks, or
/// its own status — told apart, for each sends a human somewhere else.
/// Not the security agent's: it owes findings, not a tool's report.
pub fn mechanical_security(role: Role, stack_at: &str, advisories_at: &str, base: &str,
    out: Result<(i32, Result<Vec<crate::security::Finding>, String>), String>) -> (r: Result<Decision, GateError>)
    ensures
        role == Role::Security ==> (r matches Ok(d) && not_applicable_with(d,
            "the security agent attacks what is built; it owes findings, not a tool's report"@)),
        role != Role::Security ==> match out {
            Err(e) => r matches Ok(d) && unplayed_with(d, e@),
            Ok((status, findings)) => if status == 66 {
                r matches Ok(d) && failed_with(d, "there is no security script at "@ + security_at(stack_at@)
                    + ": the stack in the project's home ships no security.sh — a proof nobody can run is not a proof that passed. `nunki init --stack <name>` writes it"@)
            } else if status == 67 {
                r matches Ok(d) && failed_with(d, security_at(stack_at@) + " is not executable, so nothing ran"@)
            } else if status == 69 {
                r matches Ok(d) && unplayed_with(d, "no advisory database at "@ + advisories_at@
                    + ": the stack declares where it lives on the host, and the host fills it — `cargo deny check advisories` once is enough"@)
            } else if status == 70 {
                r matches Ok(d) && unplayed_with(d, base@
                    + " is not in the clean copy of HEAD, so there is nothing to compare this branch against"@)
            } else {
                match findings {
                    Err(e) => r matches Err(GateError::Security(w)) && w@ == e@,
                    Ok(fs) => decided(r, spec_findings_verdict(fs@)),
                }
            },
        },
{
    if role == Role::Security {
        return Ok(Decision::NotApplicable(owned("the security agent attacks what is built; it owes findings, not a tool's report")));
    }
    let (status, findings) = match out {
        Err(e) => return Ok(Decision::Unplayed(e)),
        Ok(o) => o,
    };
    if status == 66 {
        let mut w = owned("there is no security script at ");
        push_str(&mut w, stack_at);
        push_str(&mut w, "/security.sh");
        push_str(&mut w, ": the stack in the project's home ships no security.sh — a proof nobody can run is not a proof that passed. `nunki init --stack <name>` writes it");
        assert(w@ =~= "there is no security script at "@ + security_at(stack_at@)
            + ": the stack in the project's home ships no security.sh — a proof nobody can run is not a proof that passed. `nunki init --stack <name>` writes it"@);
        return Ok(Decision::Failed(w));
    }
    if status == 67 {
        let mut w = owned(stack_at);
        push_str(&mut w, "/security.sh");
        push_str(&mut w, " is not executable, so nothing ran");
        return Ok(Decision::Failed(w));
    }
    if status == 69 {
        let mut w = owned("no advisory database at ");
        push_str(&mut w, advisories_at);
        push_str(&mut w, ": the stack declares where it lives on the host, and the host fills it — `cargo deny check advisories` once is enough");
        return Ok(Decision::Unplayed(w));
    }
    if status == 70 {
        let mut w = owned(base);
        push_str(&mut w, " is not in the clean copy of HEAD, so there is nothing to compare this branch against");
        return Ok(Decision::Unplayed(w));
    }
    let fs = match findings {
        Err(e) => return Err(GateError::Security(e)),
        Ok(fs) => fs,
    };
    let blocking = say_filtered(fs.as_slice(), false);
    if blocking.len() > 0 {
        let mut secret = false;
        let mut i: usize = 0;
        while i < fs.len()
            invariant
                i <= fs@.len(),
                secret == exists|k: int| 0 <= k < i && (#[trigger] fs@[k]).spec_blocks() && fs@[k].kind == crate::security::Kind::Secret,
            decreases fs@.len() - i,
        {
            if fs[i].blocks() && fs[i].kind == crate::security::Kind::Secret {
                secret = true;
            }
            i += 1;
        }
        let mut w = decimal(blocking.len() as u64);
        push_str(&mut w, " finding(s) this branch brought, and nobody has ruled on: ");
        push_str(&mut w, head_of(blocking.as_slice(), 10).as_str());
        if secret {
            push_str(&mut w, ". A secret is yours to rule on: revoke it, then `nunki secret accept <id> --because <why>` so it stops being reported");
        }
        return Ok(Decision::Failed(w));
    }
    let stale = say_filtered(fs.as_slice(), true);
    if stale.len() > 0 {
        let mut w = decimal(stale.len() as u64);
        push_str(&mut w, " exception(s) a fix has overtaken — apply it and drop the exception: ");
        push_str(&mut w, head_of(stale.as_slice(), 10).as_str());
        return Ok(Decision::Failed(w));
    }
    Ok(Decision::Passed)
}

/// Why nothing may run in the clean copy of `HEAD` while a campaign started
/// at `started_at` is in flight: it runs in place there.
pub fn campaign_in_flight(started_at: &str) -> (r: String)
    ensures
        r@ == "a mutation campaign has been rewriting the clean copy of HEAD since "@ + started_at@
            + " — it runs in place there, so this would judge a mutant and reset the tree under the campaign. `nunki verify` plays it again once the campaign is read back"@,
{
    let mut r = owned("a mutation campaign has been rewriting the clean copy of HEAD since ");
    push_str(&mut r, started_at);
    push_str(&mut r, " — it runs in place there, so this would judge a mutant and reset the tree under the campaign. `nunki verify` plays it again once the campaign is read back");
    r
}

/// The coder's answer to a survivor, from its file.
pub open spec fn coder_answer(coders: Seq<(String, crate::mutants::Triage)>, id: Seq<char>) -> Option<crate::mutants::Triage> {
    let k = crate::text::first_from(0, coders.len() as int, |i: int| coders[i].0@ == id);
    if k < coders.len() { Some(coders[k].1) } else { None }
}

/// A survivor's answer: the coder's when it gave one, else the HQ's.
pub open spec fn answer(coders: Seq<(String, crate::mutants::Triage)>, s: crate::mutants::Survivor) -> Option<crate::mutants::Triage> {
    match coder_answer(coders, s.id@) {
        Some(t) => Some(t),
        None => s.outcome,
    }
}

/// Where a survivor is, for a human: `file:line id`.
pub open spec fn survivor_line(s: crate::mutants::Survivor) -> Seq<char> {
    s.file@ + ":"@ + spec_decimal(s.line as nat) + " "@ + s.id@
}

/// The test a survivor's answer names, if it names one.
pub open spec fn named_test(coders: Seq<(String, crate::mutants::Triage)>, s: crate::mutants::Survivor) -> Option<Seq<char>> {
    match answer(coders, s) {
        Some(t) => t.spec_test(),
        None => None,
    }
}

/// Gate 7 once a campaign on this content is on file.
pub open spec fn spec_mutation_on(c: crate::mutants::Campaign, coders: Seq<(String, crate::mutants::Triage)>,
    missing: Seq<Seq<char>>) -> (Option<Seq<char>>, Option<Seq<char>>)
{
    let ss = c.survivors@;
    let bad = crate::text::first_from(0, coders.len() as int, |i: int| coders[i].1.spec_test() is None);
    let untriaged = ss.filter(|s: crate::mutants::Survivor| answer(coders, s) is None)
        .map_values(|s: crate::mutants::Survivor| survivor_line(s));
    let gone = crate::text::first_from(0, ss.len() as int,
        |i: int| named_test(coders, ss[i]) matches Some(t) && missing.contains(t));
    let equivalent = ss.filter(|s: crate::mutants::Survivor| answer(coders, s) matches Some(crate::mutants::Triage::Equivalent { .. })).len();
    if bad < coders.len() {
        (Some("MUTANTS.triage.json answers "@ + coders[bad].0@ + " with `"@ + coders[bad].1.spec_kind()
            + "`, and that outcome is not the coder's to give: nothing can check it, so it is the HQ's — write it in MUTANTS.json"@), None)
    } else if untriaged.len() > 0 {
        (Some(spec_decimal(untriaged.len()) + " survivor(s) have no outcome, and there is no threshold to hide behind — each needs a named test, a sentence saying it is equivalent, or a bug frozen in a test: "@
            + spec_head_of(untriaged, 10)), None)
    } else if gone < ss.len() {
        (Some(ss[gone].file@ + ":"@ + spec_decimal(ss[gone].line as nat) + " names the test "@
            + crate::text::debug_quoted(named_test(coders, ss[gone])->Some_0) + ", and nothing in the tree is called that"@), None)
    } else if equivalent > 0 {
        (None, Some(spec_decimal(equivalent) + " of "@ + spec_decimal(ss.len())
            + " rode on `equivalent`, which no machine can check — they come from the HQ's own hand, and they are counted here so nobody has to go looking"@))
    } else {
        (None, None)
    }
}

/// Gate 7's rules on a campaign on this content: an outcome the coder
/// may not give (`equivalent`) is red, a survivor nobody answered is red,
/// and when nothing is red the note says exactly whether some survivor
/// rode on `equivalent`.
pub proof fn law_mutation_rules(c: crate::mutants::Campaign, coders: Seq<(String, crate::mutants::Triage)>,
    missing: Seq<Seq<char>>)
    ensures
        (exists|i: int| 0 <= i < coders.len() && (#[trigger] coders[i]).1 is Equivalent) ==> spec_mutation_on(c, coders,
            missing).0 is Some,
        (exists|i: int| 0 <= i < c.survivors@.len() && answer(coders, #[trigger] c.survivors@[i]) is None)
            ==> spec_mutation_on(c, coders, missing).0 is Some,
        spec_mutation_on(c, coders, missing).0 is None ==> ((spec_mutation_on(c, coders, missing).1 is Some) == (exists|i: int|
            0 <= i < c.survivors@.len() && answer(coders, #[trigger] c.survivors@[i]) matches Some(
                crate::mutants::Triage::Equivalent { .. },
            ))),
{
    let ss = c.survivors@;
    let p = |i: int| coders[i].1.spec_test() is None;
    crate::text::lemma_first_from_bounds(0, coders.len() as int, p);
    let bad = crate::text::first_from(0, coders.len() as int, p);
    if exists|i: int| 0 <= i < coders.len() && (#[trigger] coders[i]).1 is Equivalent {
        let i = choose|i: int| 0 <= i < coders.len() && (#[trigger] coders[i]).1 is Equivalent;
        assert(p(i));
    }
    let none = |s: crate::mutants::Survivor| answer(coders, s) is None;
    if exists|i: int| 0 <= i < ss.len() && answer(coders, #[trigger] ss[i]) is None {
        let i = choose|i: int| 0 <= i < ss.len() && answer(coders, #[trigger] ss[i]) is None;
        ss.lemma_filter_contains(none, i);
        assert(ss.filter(none).len() > 0);
    }
    let eq = |s: crate::mutants::Survivor| answer(coders, s) matches Some(crate::mutants::Triage::Equivalent { .. });
    if exists|i: int| 0 <= i < ss.len() && answer(coders, #[trigger] ss[i]) matches Some(crate::mutants::Triage::Equivalent { .. }) {
        let i = choose|i: int| 0 <= i < ss.len() && answer(coders, #[trigger] ss[i]) matches Some(
            crate::mutants::Triage::Equivalent { .. },
        );
        ss.lemma_filter_contains(eq, i);
        assert(ss.filter(eq).len() > 0);
    } else {
        assert(ss.all(|x: crate::mutants::Survivor| !eq(x))) by {
            assert forall|i: int| 0 <= i < ss.len() implies !eq(#[trigger] ss[i]) by {}
        }
        ss.lemma_all_neg_filter_empty(eq);
    }
}

fn answer_of(coders: &[(String, crate::mutants::Triage)], s: &crate::mutants::Survivor) -> (r: Option<crate::mutants::Triage>)
    ensures
        r == answer(coders@, *s),
{
    let ghost n = coders@.len() as int;
    let ghost p = |i: int| coders@[i].0@ == s.id@;
    let mut i: usize = 0;
    while i < coders.len()
        invariant
            n == coders@.len(),
            p == (|i: int| coders@[i].0@ == s.id@),
            i <= n,
            crate::text::first_from(0, n, p) == crate::text::first_from(i as int, n, p),
        decreases n - i,
    {
        if str_eq(coders[i].0.as_str(), s.id.as_str()) {
            assert(p(i as int));
            assert(crate::text::first_from(i as int, n, p) == i);
            return Some(copy_triage(&coders[i].1));
        }
        proof {
            crate::text::lemma_first_from_skip(i as int, i + 1, n, p);
        }
        i += 1;
    }
    match &s.outcome {
        Some(t) => Some(copy_triage(t)),
        None => None,
    }
}

fn copy_triage(t: &crate::mutants::Triage) -> (r: crate::mutants::Triage)
    ensures
        r == *t,
{
    match t {
        crate::mutants::Triage::Killed { test } => crate::mutants::Triage::Killed { test: test.clone() },
        crate::mutants::Triage::Equivalent { why } => crate::mutants::Triage::Equivalent { why: why.clone() },
        crate::mutants::Triage::Bug { test } => crate::mutants::Triage::Bug { test: test.clone() },
    }
}

/// The tests the survivors' answers name: the program around this crate
/// asks git (`grep --quiet -F -- <test>`) whether anything in the tree is
/// called each, and hands back those nothing is.
pub fn named_tests(campaign: &crate::mutants::Campaign, coders: &[(String, crate::mutants::Triage)]) -> (r: Vec<String>)
    ensures
        forall|i: int| 0 <= i < campaign.survivors@.len() ==>
            (named_test(coders@, #[trigger] campaign.survivors@[i]) matches Some(t) ==> views(r@).contains(t)),
{
    let mut r: Vec<String> = Vec::new();
    let mut i: usize = 0;
    while i < campaign.survivors.len()
        invariant
            i <= campaign.survivors@.len(),
            forall|k: int| 0 <= k < i ==>
                (named_test(coders@, #[trigger] campaign.survivors@[k]) matches Some(t) ==> views(r@).contains(t)),
        decreases campaign.survivors@.len() - i,
    {
        let a = answer_of(coders, &campaign.survivors[i]);
        if let Some(t) = a {
            if let Some(test) = t.test() {
                let ghost before = views(r@);
                r.push(owned(test));
                proof {
                    assert(views(r@) =~= before.push(test@));
                    assert(views(r@)[before.len() as int] == test@);
                    assert forall|k: int| 0 <= k < i + 1 implies
                        (named_test(coders@, #[trigger] campaign.survivors@[k]) matches Some(x) ==> views(r@).contains(x)) by {
                        if k < i {
                            if let Some(x) = named_test(coders@, campaign.survivors@[k]) {
                                let j = choose|j: int| 0 <= j < before.len() && before[j] == x;
                                assert(views(r@)[j] == x);
                            }
                        }
                    }
                }
            }
        }
        i += 1;
    }
    r
}

/// Gate 7: every mutant that survived has received an outcome — no
/// threshold. `want` is the fingerprint of the content as it stands;
/// `campaign` the one on file; `coders` the coder's answers, by survivor id
/// in order; `missing` the tests, among [`named_tests`], nothing in the tree
/// is called. Unplayed when no campaign ran on this content, for answering
/// green would be a lie about work never done; red when a survivor has no
/// outcome, or the coder gave the one outcome that is not theirs to give,
/// or a named test does not exist; green with a note counting the
/// survivors that rode on `equivalent`.
pub fn mutation(role: Role, want: &str, campaign: Option<&crate::mutants::Campaign>,
    coders: &[(String, crate::mutants::Triage)], missing: &[String]) -> (o: Outcome)
    requires
        crate::text::bytes_end_on_char(want@, 7),
        campaign matches Some(c) ==> crate::text::bytes_end_on_char(c.fingerprint@, 7),
    ensures
        o.gate == Gate::Mutation,
        !o.waits_on_campaign,
        role != Role::Coder ==> o.note is None && not_applicable_with(o.decision,
            "system tests and configuration are not mutated"@),
        role == Role::Coder && campaign is None ==> o.note is None && unplayed_with(o.decision,
            "no mutation campaign has run on this mission — `nunki mission mutants` starts one"@),
        role == Role::Coder && (campaign matches Some(c) && c.fingerprint@ != want@) ==> o.note is None
            && unplayed_with(o.decision, "the campaign in MUTANTS.json ran on other content ("@
                + crate::text::take_bytes(campaign->Some_0.fingerprint@, 7) + " against "@
                + crate::text::take_bytes(want@, 7)
                + "), so it says nothing about the code as it stands — `nunki mission mutants` runs it again"@),
        role == Role::Coder && (campaign matches Some(c) && c.fingerprint@ == want@) ==> ({
            let (red, note) = spec_mutation_on(*campaign->Some_0, coders@, views(missing@));
            &&& match red {
                Some(w) => failed_with(o.decision, w) && o.note is None,
                None => o.decision == Decision::Passed,
            }
            &&& red is None ==> match note {
                Some(n) => o.note matches Some(m) && m@ == n,
                None => o.note is None,
            }
        }),
{
    if role != Role::Coder {
        return Outcome::of(Gate::Mutation, Decision::NotApplicable(owned("system tests and configuration are not mutated")));
    }
    let c = match campaign {
        None => return Outcome::of(Gate::Mutation, Decision::Unplayed(owned(
            "no mutation campaign has run on this mission — `nunki mission mutants` starts one"))),
        Some(c) => c,
    };
    if !str_eq(c.fingerprint.as_str(), want) {
        let mut w = owned("the campaign in MUTANTS.json ran on other content (");
        push_str(&mut w, crate::text::prefix_bytes(c.fingerprint.as_str(), 7));
        push_str(&mut w, " against ");
        push_str(&mut w, crate::text::prefix_bytes(want, 7));
        push_str(&mut w, "), so it says nothing about the code as it stands — `nunki mission mutants` runs it again");
        return Outcome::of(Gate::Mutation, Decision::Unplayed(w));
    }
    let ghost ss = c.survivors@;
    let ghost nc = coders@.len() as int;
    let ghost not_theirs = |i: int| coders@[i].1.spec_test() is None;
    let mut k: usize = 0;
    while k < coders.len()
        invariant
            role == Role::Coder,
            campaign == Some(c),
            c.fingerprint@ == want@,
            nc == coders@.len(),
            not_theirs == (|i: int| coders@[i].1.spec_test() is None),
            k <= nc,
            crate::text::first_from(0, nc, not_theirs) == crate::text::first_from(k as int, nc, not_theirs),
        decreases nc - k,
    {
        if !coders[k].1.is_the_coders_to_give() {
            assert(not_theirs(k as int));
            assert(crate::text::first_from(k as int, nc, not_theirs) == k);
            let mut w = owned("MUTANTS.triage.json answers ");
            push_str(&mut w, coders[k].0.as_str());
            push_str(&mut w, " with `");
            push_str(&mut w, coders[k].1.kind());
            push_str(&mut w, "`, and that outcome is not the coder's to give: nothing can check it, so it is the HQ's — write it in MUTANTS.json");
            return Outcome::of(Gate::Mutation, Decision::Failed(w));
        }
        proof {
            crate::text::lemma_first_from_skip(k as int, k + 1, nc, not_theirs);
        }
        k += 1;
    }
    let mut answers: Vec<Option<crate::mutants::Triage>> = Vec::new();
    let mut i: usize = 0;
    while i < c.survivors.len()
        invariant
            ss == c.survivors@,
            i <= ss.len(),
            answers@.len() == i,
            forall|j: int| 0 <= j < i ==> #[trigger] answers@[j] == answer(coders@, ss[j]),
        decreases ss.len() - i,
    {
        answers.push(answer_of(coders, &c.survivors[i]));
        i += 1;
    }
    let ghost none = |s: crate::mutants::Survivor| answer(coders@, s) is None;
    let mut untriaged: Vec<String> = Vec::new();
    let mut j: usize = 0;
    while j < c.survivors.len()
        invariant
            ss == c.survivors@,
            answers@.len() == ss.len(),
            forall|m: int| 0 <= m < ss.len() ==> #[trigger] answers@[m] == answer(coders@, ss[m]),
            none == (|s: crate::mutants::Survivor| answer(coders@, s) is None),
            j <= ss.len(),
            views(untriaged@) == ss.take(j as int).filter(none).map_values(|s: crate::mutants::Survivor| survivor_line(s)),
        decreases ss.len() - j,
    {
        proof {
            assert(ss.take(j + 1).drop_last() =~= ss.take(j as int));
            reveal_with_fuel(Seq::filter, 2);
        }
        if answers[j].is_none() {
            let mut line = c.survivors[j].file.clone();
            push_str(&mut line, ":");
            push_str(&mut line, decimal(c.survivors[j].line as u64).as_str());
            push_str(&mut line, " ");
            push_str(&mut line, c.survivors[j].id.as_str());
            let ghost before = views(untriaged@);
            untriaged.push(line);
            proof {
                let f = ss.take(j as int).filter(none);
                assert(ss.take(j + 1).filter(none) == f.push(ss[j as int]));
                assert(views(untriaged@) =~= before.push(line@));
                assert(f.push(ss[j as int]).map_values(|s: crate::mutants::Survivor| survivor_line(s))
                    =~= f.map_values(|s: crate::mutants::Survivor| survivor_line(s)).push(line@));
            }
        }
        j += 1;
    }
    assert(ss.take(j as int) =~= ss);
    if untriaged.len() > 0 {
        let mut w = decimal(untriaged.len() as u64);
        push_str(&mut w, " survivor(s) have no outcome, and there is no threshold to hide behind — each needs a named test, a sentence saying it is equivalent, or a bug frozen in a test: ");
        push_str(&mut w, head_of(untriaged.as_slice(), 10).as_str());
        return Outcome::of(Gate::Mutation, Decision::Failed(w));
    }
    proof {
        crate::text::lemma_first_from_bounds(0, nc, not_theirs);
    }
    let ghost gone = |m: int| named_test(coders@, ss[m]) matches Some(t) && views(missing@).contains(t);
    let ghost ns = ss.len() as int;
    let mut m: usize = 0;
    while m < c.survivors.len()
        invariant
            role == Role::Coder,
            campaign == Some(c),
            c.fingerprint@ == want@,
            crate::text::first_from(0, coders@.len() as int, |i: int| coders@[i].1.spec_test() is None) >= coders@.len(),
            ss.filter(|s: crate::mutants::Survivor| answer(coders@, s) is None)
                .map_values(|s: crate::mutants::Survivor| survivor_line(s)).len() == 0,
            ss == c.survivors@,
            ns == ss.len(),
            answers@.len() == ss.len(),
            forall|q: int| 0 <= q < ss.len() ==> #[trigger] answers@[q] == answer(coders@, ss[q]),
            gone == (|m: int| named_test(coders@, ss[m]) matches Some(t) && views(missing@).contains(t)),
            m <= ns,
            crate::text::first_from(0, ns, gone) == crate::text::first_from(m as int, ns, gone),
        decreases ns - m,
    {
        if let Some(t) = &answers[m] {
            if let Some(test) = t.test() {
                if contains_string(missing, test) {
                    assert(gone(m as int));
                    assert(crate::text::first_from(m as int, ns, gone) == m);
                    let mut w = c.survivors[m].file.clone();
                    push_str(&mut w, ":");
                    push_str(&mut w, decimal(c.survivors[m].line as u64).as_str());
                    push_str(&mut w, " names the test ");
                    push_str(&mut w, crate::text::quoted(test).as_str());
                    push_str(&mut w, ", and nothing in the tree is called that");
                    return Outcome::of(Gate::Mutation, Decision::Failed(w));
                }
            }
        }
        proof {
            crate::text::lemma_first_from_skip(m as int, m + 1, ns, gone);
        }
        m += 1;
    }
    let ghost eq = |s: crate::mutants::Survivor| answer(coders@, s) matches Some(crate::mutants::Triage::Equivalent { .. });
    let mut equivalent: usize = 0;
    let mut q: usize = 0;
    while q < c.survivors.len()
        invariant
            ss == c.survivors@,
            answers@.len() == ss.len(),
            forall|x: int| 0 <= x < ss.len() ==> #[trigger] answers@[x] == answer(coders@, ss[x]),
            eq == (|s: crate::mutants::Survivor| answer(coders@, s) matches Some(crate::mutants::Triage::Equivalent { .. })),
            q <= ss.len(),
            equivalent == ss.take(q as int).filter(eq).len(),
        decreases ss.len() - q,
    {
        proof {
            assert(ss.take(q + 1).drop_last() =~= ss.take(q as int));
            reveal_with_fuel(Seq::filter, 2);
        }
        if let Some(crate::mutants::Triage::Equivalent { .. }) = &answers[q] {
            proof {
                assert(ss.take(q + 1).filter(eq) == ss.take(q as int).filter(eq).push(ss[q as int]));
            }
            equivalent = equivalent + 1;
        }
        q += 1;
    }
    assert(ss.take(q as int) =~= ss);
    let mut o = Outcome::of(Gate::Mutation, Decision::Passed);
    if equivalent > 0 {
        let mut n = decimal(equivalent as u64);
        push_str(&mut n, " of ");
        push_str(&mut n, decimal(c.survivors.len() as u64).as_str());
        push_str(&mut n, " rode on `equivalent`, which no machine can check — they come from the HQ's own hand, and they are counted here so nobody has to go looking");
        o.note = Some(n);
    }
    o
}


/// Which gates a moment owes: the end of every run plays 1 to 4 and 8;
/// once the last lot is done, 5 to 7 are played too.
#[derive(Debug, Clone, Copy, PartialEq, Eq, Structural)]
pub enum Phase {
    AfterRun,
    Final,
}

/// What the gates decided, gate by gate, as the program played them. The
/// battery and the mechanical security gate are played only when no
/// campaign is in flight; the deliverable, the battery and the mutation
/// gate only at the final phase.
pub struct Played {
    pub clean_tree: Decision,
    pub branch_ahead: Decision,
    pub resume_names_head: Decision,
    pub perimeter: Decision,
    pub deliverable: Option<Decision>,
    pub battery: Option<Decision>,
    pub mutation: Option<Outcome>,
    pub security: Option<Decision>,
}

/// What a phase and a campaign in flight ask of the program before the
/// report can be put together.
pub open spec fn played_enough(phase: Phase, campaign: Option<Seq<char>>, p: Played) -> bool {
    &&& (phase == Phase::Final ==> p.deliverable is Some && p.mutation is Some)
    &&& (phase == Phase::Final && campaign is None ==> p.battery is Some)
    &&& (campaign is None ==> p.security is Some)
}

/// The outcome a gate standing down for a campaign reports.
pub open spec fn waits(o: Outcome, g: Gate, why: Seq<char>) -> bool {
    o.gate == g && (o.decision matches Decision::Unplayed(w) && w@ == why) && o.note is None && o.waits_on_campaign
}

/// The report of one moment: gates 1 to 4 in order; at the final phase the
/// deliverable, the battery (standing down while a campaign is in flight)
/// and the mutation gate; and last the mechanical security gate (standing
/// down likewise). The two gates stand down together or not at all.
pub fn play(role: Role, head: String, phase: Phase, campaign: Option<String>, played: Played) -> (r: Report)
    requires
        played_enough(phase, crate::text::opt_view(campaign), played),
    ensures
        r.role == role,
        r.head == head,
        r.outcomes@.len() == (if phase == Phase::Final { 8int } else { 5int }),
        r.outcomes@[0] == Outcome::of_spec(Gate::CleanTree, played.clean_tree),
        r.outcomes@[1] == Outcome::of_spec(Gate::BranchAhead, played.branch_ahead),
        r.outcomes@[2] == Outcome::of_spec(Gate::ResumeNamesHead, played.resume_names_head),
        r.outcomes@[3] == Outcome::of_spec(Gate::Perimeter, played.perimeter),
        phase == Phase::Final ==> {
            &&& r.outcomes@[4] == Outcome::of_spec(Gate::Deliverable, played.deliverable.unwrap())
            &&& match campaign {
                Some(why) => waits(r.outcomes@[5], Gate::Battery, why@),
                None => r.outcomes@[5] == Outcome::of_spec(Gate::Battery, played.battery.unwrap()),
            }
            &&& r.outcomes@[6] == played.mutation.unwrap()
        },
        match campaign {
            Some(why) => waits(r.outcomes@.last(), Gate::MechanicalSecurity, why@),
            None => r.outcomes@.last() == Outcome::of_spec(Gate::MechanicalSecurity, played.security.unwrap()),
        },
{
    let mut outcomes: Vec<Outcome> = Vec::new();
    outcomes.push(Outcome::of(Gate::CleanTree, played.clean_tree));
    outcomes.push(Outcome::of(Gate::BranchAhead, played.branch_ahead));
    outcomes.push(Outcome::of(Gate::ResumeNamesHead, played.resume_names_head));
    outcomes.push(Outcome::of(Gate::Perimeter, played.perimeter));
    if phase == Phase::Final {
        match played.deliverable {
            Some(d) => outcomes.push(Outcome::of(Gate::Deliverable, d)),
            None => {},
        }
        match &campaign {
            Some(why) => outcomes.push(Outcome::waiting(Gate::Battery, why.as_str())),
            None => match played.battery {
                Some(d) => outcomes.push(Outcome::of(Gate::Battery, d)),
                None => {},
            },
        }
        match played.mutation {
            Some(m) => outcomes.push(m),
            None => {},
        }
    }
    match &campaign {
        Some(why) => outcomes.push(Outcome::waiting(Gate::MechanicalSecurity, why.as_str())),
        None => match played.security {
            Some(d) => outcomes.push(Outcome::of(Gate::MechanicalSecurity, d)),
            None => {},
        },
    }
    Report { role, head, outcomes }
}

} // verus!
