//! Missions: the structured header, the verdicts the roles write, and the
//! flow that carries a mission from its first lot to a verified head.

pub mod flow;
pub mod journal;
pub mod dir;

use vstd::prelude::*;
use crate::harness::Role;

verus! {

/// A lot: a small unit of work with its own proof, done in one run.
#[derive(Debug, Clone, PartialEq, Eq)]
pub struct Lot {
    pub id: String,
    pub title: String,
}

/// Where a mission's external services live. Only what the engine needs to
/// build the allowlist is kept.
#[derive(Debug, Clone, PartialEq, Eq)]
pub struct Service {
    pub name: String,
    /// Domains or addresses the system profile may reach for this service.
    pub reach: Vec<String>,
    /// A real provider that two missions must not exercise at once: an
    /// integration run that uses it locks it for the project's other
    /// missions. The human says so at framing.
    pub shared: bool,
}

/// The `integration` field of the mission header.
#[derive(Debug, Clone, PartialEq, Eq)]
pub enum Integration {
    /// No integration mission; the reason is written at framing.
    Declined { reason: String },
    /// An integration mission on the system profile, reaching these
    /// services, and allowed to commit exactly `wiring`: every commit outside
    /// it is out of perimeter. Empty means the integrator may commit nothing.
    Services { services: Vec<Service>, wiring: Vec<String> },
}

/// The `security` field of the mission header.
#[derive(Debug, Clone, Copy, PartialEq, Eq, Structural)]
pub enum Security {
    /// Mechanical gates only (dependency audit, secret scan, static analysis).
    Gates,
    /// The gates, plus the security agent mission.
    Agent,
}

/// The three shapes a mission can take, derived from the header.
#[derive(Debug, Clone, Copy, PartialEq, Eq, Structural)]
pub enum Shape {
    CodeOnly,
    CodeAndSecurity,
    Full,
}

/// Bounds and cadences. Project defaults come from `nunki.yaml`; the mission
/// header overrides them.
#[derive(Debug, Clone, Copy, PartialEq, Eq, Structural)]
pub struct Bounds {
    /// Returns to the coder allowed after a red verdict. Zero means the first
    /// red goes to the human.
    pub max_volets: u32,
    /// Attempts allowed per lot before the human is called.
    pub attempts_per_lot: u32,
    /// Minutes between the agent's checkpoint blocks.
    pub checkpoint_minutes: u32,
    /// Minutes between liveness checks.
    pub check_minutes: u32,
    /// Consecutive checks without change that count as a stall.
    pub stall_checks: u32,
    /// Hours on one lot, with progress, after which the human is told.
    pub long_lot_hours: u32,
    /// Minutes a mutation campaign is given before it is stopped.
    pub mutation_minutes: u32,
    /// Hours a harness that keeps failing is waited out before the mission
    /// is held for the human. Zero sends the first failure to the human.
    pub harness_wait_hours: u32,
    /// Runs a mission may spend before it is held. No default.
    pub max_runs: Option<u32>,
    /// Tokens a mission may spend before it is held, the four kinds summed.
    /// No default.
    pub max_tokens: Option<u64>,
    /// Percent of the five-hour window past which no run is launched until
    /// the window resets.
    pub five_hour_stop_percent: u32,
    /// Percent of the weekly window past which no run is launched until the
    /// window resets.
    pub weekly_stop_percent: u32,
}

/// The share of the five-hour window left to a supervisor on the same
/// account.
pub const DEFAULT_FIVE_HOUR_STOP_PERCENT: u32 = 90;
/// A fifth of the week stays outside the agents.
pub const DEFAULT_WEEKLY_STOP_PERCENT: u32 = 80;
/// Long enough to outlast a subscription window that ran dry overnight.
pub const DEFAULT_HARNESS_WAIT_HOURS: u32 = 6;
/// Long enough for a real campaign on a lot's worth of files.
pub const DEFAULT_MUTATION_MINUTES: u32 = 45;

impl Default for Bounds {
    fn default() -> (b: Bounds)
        ensures
            b.max_volets == 3,
            b.attempts_per_lot == 3,
            b.checkpoint_minutes == 45,
            b.check_minutes == 15,
            b.stall_checks == 3,
            b.long_lot_hours == 8,
            b.mutation_minutes == DEFAULT_MUTATION_MINUTES,
            b.harness_wait_hours == DEFAULT_HARNESS_WAIT_HOURS,
            b.max_runs is None,
            b.max_tokens is None,
            b.five_hour_stop_percent == DEFAULT_FIVE_HOUR_STOP_PERCENT,
            b.weekly_stop_percent == DEFAULT_WEEKLY_STOP_PERCENT,
    {
        Bounds {
            five_hour_stop_percent: DEFAULT_FIVE_HOUR_STOP_PERCENT,
            weekly_stop_percent: DEFAULT_WEEKLY_STOP_PERCENT,
            max_volets: 3,
            attempts_per_lot: 3,
            checkpoint_minutes: 45,
            check_minutes: 15,
            stall_checks: 3,
            long_lot_hours: 8,
            mutation_minutes: DEFAULT_MUTATION_MINUTES,
            harness_wait_hours: DEFAULT_HARNESS_WAIT_HOURS,
            max_runs: None,
            max_tokens: None,
        }
    }
}

/// The structured header of `MISSION.md`, frozen at validation: the agent
/// cannot write it and it is never re-read during the mission.
#[derive(Debug, Clone, PartialEq, Eq)]
pub struct Header {
    pub branch: String,
    pub base: String,
    pub lots: Vec<Lot>,
    pub integration: Integration,
    pub security: Security,
    /// Who decides when this mission comes back with a question.
    pub arbiter: Option<String>,
    /// Which account this mission spends.
    pub account: Option<String>,
    /// Which model this mission's agents run on.
    pub model: Option<String>,
    /// How the application is started for this mission.
    pub run: Option<String>,
    pub bounds: Bounds,
}

impl Header {
    /// The shape the header declares.
    pub open spec fn spec_shape(&self) -> Shape {
        match self.integration {
            Integration::Services { .. } => Shape::Full,
            Integration::Declined { .. } => if self.security == Security::Agent {
                Shape::CodeAndSecurity
            } else {
                Shape::CodeOnly
            },
        }
    }

    pub fn shape(&self) -> (s: Shape)
        ensures
            s == self.spec_shape(),
    {
        match &self.integration {
            Integration::Services { .. } => Shape::Full,
            Integration::Declined { .. } => match self.security {
                Security::Agent => Shape::CodeAndSecurity,
                Security::Gates => Shape::CodeOnly,
            },
        }
    }

    pub fn has_integration(&self) -> (b: bool)
        ensures
            b == (self.integration is Services),
    {
        match &self.integration {
            Integration::Services { .. } => true,
            Integration::Declined { .. } => false,
        }
    }

    pub fn has_security_agent(&self) -> (b: bool)
        ensures
            b == (self.security == Security::Agent),
    {
        match self.security {
            Security::Agent => true,
            Security::Gates => false,
        }
    }
}

/// A role's verdict.
#[derive(Debug, Clone, Copy, PartialEq, Eq, Structural)]
pub enum Verdict {
    Integrated,
    Broken,
    Clear,
    Findings,
}

impl Verdict {
    /// The verdict's name, as it is written in `VERDICT.json`'s words.
    pub fn name(self) -> (r: &'static str)
        ensures
            r@ == match self {
                Verdict::Integrated => "Integrated"@,
                Verdict::Broken => "Broken"@,
                Verdict::Clear => "Clear"@,
                Verdict::Findings => "Findings"@,
            },
    {
        match self {
            Verdict::Integrated => "Integrated",
            Verdict::Broken => "Broken",
            Verdict::Clear => "Clear",
            Verdict::Findings => "Findings",
        }
    }

    /// The verdict a stage waits for.
    pub fn is_green(self) -> (b: bool)
        ensures
            b == (self == Verdict::Integrated || self == Verdict::Clear),
    {
        match self {
            Verdict::Integrated | Verdict::Clear => true,
            Verdict::Broken | Verdict::Findings => false,
        }
    }
}

/// `VERDICT.json`, written by the agent at the end of its last run and
/// checked against the real `HEAD`.
#[derive(Debug, Clone, PartialEq, Eq)]
pub struct VerdictFile {
    pub role: Role,
    pub verdict: Verdict,
    /// Commit the role concluded on.
    pub head: String,
    /// RFC 3339 date.
    pub date: String,
    /// The report, as text; for the security role the whole finding list.
    pub report: String,
}

/// A mission whose shape is full runs the integrator; one with a security
/// agent runs it; the shape is `Full` exactly when an integration mission is
/// declared.
pub proof fn lemma_shape_matches_stages(h: Header)
    ensures
        (h.spec_shape() == Shape::Full) == (h.integration is Services),
        (h.spec_shape() == Shape::CodeOnly) == (h.integration is Declined && h.security == Security::Gates),
{
}


/// Where `c` first stands in `s`, if it does.
pub open spec fn first_index(s: Seq<char>, c: char) -> Option<int> {
    crate::text::find_text(s, seq![c])
}

/// `s` cut at every `c`, as `str::split` cuts it: one piece more than
/// there are `c`s.
pub open spec fn split_char(s: Seq<char>, c: char) -> Seq<Seq<char>>
    decreases s.len(),
{
    if s.len() == 0 {
        seq![Seq::empty()]
    } else {
        let rest = split_char(s.drop_last(), c);
        if s.last() == c {
            rest.push(Seq::empty())
        } else {
            rest.update(rest.len() - 1, rest.last().push(s.last()))
        }
    }
}

proof fn lemma_split_char_nonempty(s: Seq<char>, c: char)
    ensures
        split_char(s, c).len() > 0,
    decreases s.len(),
{
    if s.len() > 0 {
        lemma_split_char_nonempty(s.drop_last(), c);
    }
}

/// The pieces trimmed, the empty ones left out.
pub open spec fn kept_trimmed(ps: Seq<Seq<char>>) -> Seq<Seq<char>>
    decreases ps.len(),
{
    if ps.len() == 0 {
        Seq::empty()
    } else {
        let rest = kept_trimmed(ps.drop_last());
        if crate::text::trim(ps.last()).len() == 0 { rest } else { rest.push(crate::text::trim(ps.last())) }
    }
}

/// A lot as written on the command line, `id:title`, cut at the first
/// colon, both halves trimmed and neither empty.
pub open spec fn spec_parse_lot(spec: Seq<char>) -> Result<(Seq<char>, Seq<char>), Seq<char>> {
    match first_index(spec, ':') {
        None => Err("a lot is written `id:title`, and "@ + crate::text::debug_quoted(spec) + " is not"@),
        Some(k) => {
            let id = crate::text::trim(spec.take(k));
            let title = crate::text::trim(spec.skip(k + 1));
            if id.len() == 0 || title.len() == 0 {
                Err("a lot needs an id and a title, and "@ + crate::text::debug_quoted(spec) + " lacks one"@)
            } else {
                Ok((id, title))
            }
        },
    }
}

/// A lot as written on the command line: `id:title`.
pub fn parse_lot(spec: &str) -> (r: Result<Lot, String>)
    ensures
        match (r, spec_parse_lot(spec@)) {
            (Ok(l), Ok((id, title))) => l.id@ == id && l.title@ == title,
            (Err(a), Err(b)) => a@ == b,
            _ => false,
        },
{
    let v = crate::text::chars_of(spec);
    let colon: Vec<char> = vec![':'];
    assert(colon@ =~= seq![':']);
    match crate::text::find_in(v.as_slice(), colon.as_slice()) {
        None => {
            let mut m = crate::text::owned("a lot is written `id:title`, and ");
            crate::text::push_str(&mut m, crate::text::quoted(spec).as_str());
            crate::text::push_str(&mut m, " is not");
            Err(m)
        },
        Some(k) => {
            assert(k < v.len());
            let id_part = crate::text::string_of(v.as_slice(), 0, k);
            let title_part = crate::text::string_of(v.as_slice(), k + 1, v.len());
            assert(v@.subrange(0, k as int) =~= spec@.take(k as int));
            assert(v@.subrange(k + 1, v@.len() as int) =~= spec@.skip(k + 1));
            let id = crate::text::trimmed(id_part.as_str());
            let title = crate::text::trimmed(title_part.as_str());
            if id.as_str().unicode_len() == 0 || title.as_str().unicode_len() == 0 {
                let mut m = crate::text::owned("a lot needs an id and a title, and ");
                crate::text::push_str(&mut m, crate::text::quoted(spec).as_str());
                crate::text::push_str(&mut m, " lacks one");
                Err(m)
            } else {
                Ok(Lot { id, title })
            }
        },
    }
}

/// The pieces of `s` cut at every `c`.
fn split_at_char(s: &[char], c: char) -> (r: Vec<String>)
    ensures
        crate::text::views(r@) == split_char(s@, c),
{
    let mut pieces: Vec<String> = Vec::new();
    let mut current = String::new();
    let mut i: usize = 0;
    assert(s@.take(0) =~= Seq::<char>::empty());
    while i < s.len()
        invariant
            i <= s@.len(),
            crate::text::views(pieces@).push(current@) == split_char(s@.take(i as int), c),
        decreases s@.len() - i,
    {
        assert(s@.take(i + 1).drop_last() =~= s@.take(i as int));
        assert(s@.take(i + 1).last() == s@[i as int]);
        let ghost before = crate::text::views(pieces@).push(current@);
        if s[i] == c {
            let done = current;
            pieces.push(done);
            current = String::new();
            assert(crate::text::views(pieces@).push(current@) =~= before.push(Seq::empty()));
        } else {
            crate::text::push_char(&mut current, s[i]);
            assert(crate::text::views(pieces@).push(current@) =~= before.update(before.len() - 1, before.last().push(s@[i as int])));
        }
        i += 1;
    }
    assert(s@.take(s@.len() as int) =~= s@);
    let ghost before = crate::text::views(pieces@);
    pieces.push(current);
    assert(crate::text::views(pieces@) =~= before.push(current@));
    pieces
}

/// A service as written on the command line, `name=host[,host…]`: cut at
/// the first `=`, the hosts split at commas and trimmed, the empty ones
/// left out; a name and at least one host are needed.
pub open spec fn spec_parse_service(spec: Seq<char>) -> Result<(Seq<char>, Seq<Seq<char>>), Seq<char>> {
    match first_index(spec, '=') {
        None => Err("a service is written `name=host[,host…]`, and "@ + crate::text::debug_quoted(spec) + " is not"@),
        Some(k) => {
            let name = crate::text::trim(spec.take(k));
            let reach = kept_trimmed(split_char(spec.skip(k + 1), ','));
            if name.len() == 0 || reach.len() == 0 {
                Err("a service needs a name and something to reach, and "@ + crate::text::debug_quoted(spec) + " lacks one"@)
            } else {
                Ok((name, reach))
            }
        },
    }
}

/// A service as written on the command line: `name=host[,host…]`. It is
/// not shared unless the framing says so.
pub fn parse_service(spec: &str) -> (r: Result<Service, String>)
    ensures
        match (r, spec_parse_service(spec@)) {
            (Ok(s), Ok((name, reach))) => s.name@ == name && crate::text::views(s.reach@) == reach && !s.shared,
            (Err(a), Err(b)) => a@ == b,
            _ => false,
        },
{
    let v = crate::text::chars_of(spec);
    let eq: Vec<char> = vec!['='];
    assert(eq@ =~= seq!['=']);
    match crate::text::find_in(v.as_slice(), eq.as_slice()) {
        None => {
            let mut m = crate::text::owned("a service is written `name=host[,host…]`, and ");
            crate::text::push_str(&mut m, crate::text::quoted(spec).as_str());
            crate::text::push_str(&mut m, " is not");
            Err(m)
        },
        Some(k) => {
            assert(k < v.len());
            let name_part = crate::text::string_of(v.as_slice(), 0, k);
            assert(v@.subrange(0, k as int) =~= spec@.take(k as int));
            let rest = crate::text::slice_to_vec(v.as_slice(), k + 1, v.len());
            assert(rest@ =~= spec@.skip(k + 1));
            let pieces = split_at_char(rest.as_slice(), ',');
            let mut reach: Vec<String> = Vec::new();
            let mut i: usize = 0;
            while i < pieces.len()
                invariant
                    i <= pieces@.len(),
                    crate::text::views(reach@) == kept_trimmed(crate::text::views(pieces@).take(i as int)),
                decreases pieces@.len() - i,
            {
                assert(crate::text::views(pieces@).take(i + 1).drop_last() =~= crate::text::views(pieces@).take(i as int));
                let t = crate::text::trimmed(pieces[i].as_str());
                if t.as_str().unicode_len() > 0 {
                    let ghost before = crate::text::views(reach@);
                    reach.push(t);
                    assert(crate::text::views(reach@) =~= before.push(crate::text::trim(pieces@[i as int]@)));
                }
                i += 1;
            }
            assert(crate::text::views(pieces@).take(pieces@.len() as int) =~= crate::text::views(pieces@));
            let name = crate::text::trimmed(name_part.as_str());
            if name.as_str().unicode_len() == 0 || reach.len() == 0 {
                let mut m = crate::text::owned("a service needs a name and something to reach, and ");
                crate::text::push_str(&mut m, crate::text::quoted(spec).as_str());
                crate::text::push_str(&mut m, " lacks one");
                Err(m)
            } else {
                Ok(Service { name, reach, shared: false })
            }
        },
    }
}

} // verus!
