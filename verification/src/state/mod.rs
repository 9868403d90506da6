//! What `hq` keeps about a mission beyond its files, and the time stamps it
//! writes on them.

pub mod lock;

use vstd::prelude::*;
use crate::harness::RunHandle;
use crate::mission::flow::{Event, Flow, FlowError, Stage};
use crate::text::{join_path, owned, path_join, spec_decimal, decimal, push_char, push_str};

verus! {

/// What can go wrong keeping a mission's state.
#[derive(Debug)]
pub enum StateError {
    Io { path: String, why: String },
    Corrupt { path: String, why: String },
    Missing(String),
    Flow(FlowError),
}

/// Everything kept about a mission that is not in its files: the flow
/// (which carries the frozen header), the slot, the run in progress if any,
/// and the application started for the current stage.
#[derive(Debug, Clone, PartialEq, Eq)]
pub struct MissionState {
    pub id: String,
    pub slot: String,
    pub flow: Flow,
    /// The run launched for the current stage, if one is or was running.
    pub run: Option<RunHandle>,
    /// The application started for the current stage, if the mission has
    /// one: "the agent is up" and "the deliverable is up" are two facts.
    pub app: Option<RunHandle>,
    /// RFC 3339 time of the last write; informational.
    pub updated_at: String,
}

/// The state directory of one project's HQ.
#[derive(Debug, Clone)]
pub struct Store {
    pub root: String,
}

/// The names in a directory that are mission states, their `.json` taken
/// off, in the order given.
pub open spec fn state_names(names: Seq<Seq<char>>) -> Seq<Seq<char>>
    decreases names.len(),
{
    if names.len() == 0 {
        Seq::empty()
    } else if crate::text::has_suffix(names.last(), ".json"@) {
        state_names(names.drop_last()).push(names.last().take(names.last().len() - 5))
    } else {
        state_names(names.drop_last())
    }
}

impl Store {
    /// The state directory under an HQ root: `<hq>/state`.
    pub fn at(hq_root: &str) -> (r: Store)
        ensures
            r.root@ == path_join(hq_root@, "state"@),
    {
        Store { root: join_path(hq_root, "state") }
    }

    /// Where the store is.
    pub fn root(&self) -> (r: &str)
        ensures
            r@ == self.root@,
    {
        self.root.as_str()
    }

    /// Where a mission's state is written: `<state>/missions/<id>.json`.
    pub fn mission_path(&self, id: &str) -> (r: String)
        ensures
            r@ == path_join(path_join(self.root@, "missions"@), id@ + ".json"@),
    {
        let dir = join_path(self.root.as_str(), "missions");
        let mut file = owned(id);
        push_str(&mut file, ".json");
        join_path(dir.as_str(), file.as_str())
    }

    /// The identifiers of the missions with a state file, from the names in
    /// the missions directory: the `.json` files, in order.
    pub fn missions(names: &[String]) -> (r: Vec<String>)
        ensures
            crate::text::strictly_sorted(crate::text::views(r@)),
            crate::text::views(r@).to_set() == state_names(crate::text::views(names@)).to_set(),
    {
        let mut ids: Vec<String> = Vec::new();
        let mut i: usize = 0;
        proof {
            reveal_strlit(".json");
        }
        while i < names.len()
            invariant
                i <= names@.len(),
                crate::text::views(ids@) == state_names(crate::text::views(names@.take(i as int))),
            decreases names@.len() - i,
        {
            let ghost before = crate::text::views(ids@);
            assert(crate::text::views(names@.take(i + 1)).drop_last() =~= crate::text::views(names@.take(i as int)));
            let v = crate::text::chars_of(names[i].as_str());
            if crate::text::str_ends_with(names[i].as_str(), ".json") {
                proof {
                    reveal_strlit(".json");
                }
                assert(v@.len() >= 5);
                ids.push(crate::text::string_of(v.as_slice(), 0, v.len() - 5));
                assert(crate::text::views(ids@) =~= before.push(names@[i as int]@.take(names@[i as int]@.len() - 5)));
            }
            i += 1;
        }
        assert(names@.take(i as int) =~= names@);
        crate::text::sorted_unique(ids.as_slice())
    }

    /// Advance a mission's flow by one event, stamped `now`. The flow is
    /// only changed if the event is valid; a rejected event changes nothing.
    pub fn apply(state: &mut MissionState, event: Event, now: String) -> (r: Result<Stage, StateError>)
        requires
            old(state).flow.well_formed(),
        ensures
            final(state).flow.well_formed(),
            match crate::mission::flow::refusal(old(state).flow, event) {
                Some(e) => r matches Err(StateError::Flow(got)) && crate::mission::flow::same_error(got, e)
                    && *final(state) == *old(state),
                None => r matches Ok(s) && crate::mission::flow::same_stage(s, final(state).flow.stage)
                    && crate::mission::flow::moved(old(state).flow, event, final(state).flow)
                    && final(state).updated_at@ == now@ && final(state).run == old(state).run
                    && final(state).id == old(state).id && final(state).slot == old(state).slot,
            },
    {
        match state.flow.advance(event) {
            Ok(s) => {
                state.updated_at = now;
                Ok(s)
            },
            Err(e) => Err(StateError::Flow(e)),
        }
    }

    /// Record the run launched for the current stage, or clear it.
    pub fn set_run(state: &mut MissionState, run: Option<RunHandle>, now: String)
        ensures
            final(state).run == run,
            final(state).updated_at@ == now@,
            final(state).flow == old(state).flow,
            final(state).id == old(state).id,
            final(state).slot == old(state).slot,
            final(state).app == old(state).app,
    {
        state.run = run;
        state.updated_at = now;
    }
}

/// The civil date of a day count since 1970-01-01, as (year, month, day):
/// the days-to-civil conversion on the proleptic Gregorian calendar.
pub open spec fn civil_from_days(days: int) -> (int, int, int) {
    let z = days + 719_468;
    let era = z / 146_097;
    let doe = z % 146_097;
    let yoe = (doe - doe / 1_460 + doe / 36_524 - doe / 146_096) / 365;
    let y = yoe + era * 400;
    let doy = doe - (365 * yoe + yoe / 4 - yoe / 100);
    let mp = (5 * doy + 2) / 153;
    let d = doy - (153 * mp + 2) / 5 + 1;
    let m = if mp < 10 { mp + 3 } else { mp - 9 };
    let y = if m <= 2 { y + 1 } else { y };
    (y, m, d)
}

/// `n` on at least `width` digits, zeros in front.
pub open spec fn padded(n: nat, width: nat) -> Seq<char> {
    let digits = spec_decimal(n);
    if digits.len() >= width {
        digits
    } else {
        Seq::new((width - digits.len()) as nat, |i: int| '0') + digits
    }
}

/// `YYYY-MM-DDTHH:MM:SSZ` for an epoch second, in UTC.
pub open spec fn spec_rfc3339(secs: nat) -> Seq<char> {
    let (y, m, d) = civil_from_days((secs / 86_400) as int);
    let rem = secs % 86_400;
    padded(y as nat, 4) + seq!['-'] + padded(m as nat, 2) + seq!['-'] + padded(d as nat, 2)
        + seq!['T'] + padded(rem / 3_600, 2) + seq![':'] + padded((rem % 3_600) / 60, 2)
        + seq![':'] + padded(rem % 60, 2) + seq!['Z']
}

/// `n` on at least `width` digits.
fn pad(n: u64, width: usize) -> (r: String)
    ensures
        r@ == padded(n as nat, width as nat),
{
    let digits = decimal(n);
    let len = digits.as_str().unicode_len();
    if len >= width {
        return digits;
    }
    let mut out = String::new();
    let mut i: usize = 0;
    while i < width - len
        invariant
            len < width,
            i <= width - len,
            out@ == Seq::new(i as nat, |j: int| '0'),
        decreases width - len - i,
    {
        push_char(&mut out, '0');
        i += 1;
        assert(out@ =~= Seq::new(i as nat, |j: int| '0'));
    }
    push_str(&mut out, digits.as_str());
    out
}

/// The civil date of an epoch-day count.
fn civil(days: u64) -> (r: (u64, u64, u64))
    requires
        days <= u64::MAX / 86_400,
    ensures
        (r.0 as int, r.1 as int, r.2 as int) == civil_from_days(days as int),
{
    let z: u64 = days + 719_468;
    let era: u64 = z / 146_097;
    let doe: u64 = z % 146_097;
    assert(doe < 146_097);
    let yoe: u64 = (doe - doe / 1_460 + doe / 36_524 - doe / 146_096) / 365;
    assert(yoe <= 400) by (nonlinear_arith)
        requires yoe == (doe - doe / 1_460 + doe / 36_524 - doe / 146_096) / 365, doe < 146_097;
    let y: u64 = yoe + era * 400;
    assert(365 * yoe + yoe / 4 - yoe / 100 <= doe) by (nonlinear_arith)
        requires yoe == (doe - doe / 1_460 + doe / 36_524 - doe / 146_096) / 365, doe < 146_097;
    let doy: u64 = doe - (365 * yoe + yoe / 4 - yoe / 100);
    assert(doy < 366) by (nonlinear_arith)
        requires yoe == (doe - doe / 1_460 + doe / 36_524 - doe / 146_096) / 365, doe < 146_097,
            doy == doe - (365 * yoe + yoe / 4 - yoe / 100);
    let mp: u64 = (5 * doy + 2) / 153;
    assert(153 * mp <= 5 * doy + 2) by (nonlinear_arith)
        requires mp == (5 * doy + 2) / 153;
    assert((153 * mp + 2) / 5 <= doy) by (nonlinear_arith)
        requires 153 * mp <= 5 * doy + 2;
    assert(mp < 12) by (nonlinear_arith) requires mp == (5 * doy + 2) / 153, doy < 366;
    let d: u64 = doy - (153 * mp + 2) / 5 + 1;
    let m: u64 = if mp < 10 { mp + 3 } else { mp - 9 };
    let y: u64 = if m <= 2 { y + 1 } else { y };
    (y, m, d)
}

/// An epoch second as RFC 3339 in UTC, the stamp every record `hq` writes
/// carries.
#[verifier::rlimit(20)]
pub fn rfc3339(secs: u64) -> (r: String)
    ensures
        r@ == spec_rfc3339(secs as nat),
{
    let (y, m, d) = civil(secs / 86_400);
    let rem = secs % 86_400;
    let mut out = pad(y, 4);
    push_char(&mut out, '-');
    push_str(&mut out, pad(m, 2).as_str());
    push_char(&mut out, '-');
    push_str(&mut out, pad(d, 2).as_str());
    let ghost date = out@;
    assert(date =~= padded(y as nat, 4) + seq!['-'] + padded(m as nat, 2) + seq!['-'] + padded(d as nat, 2));
    push_char(&mut out, 'T');
    push_str(&mut out, pad(rem / 3_600, 2).as_str());
    push_char(&mut out, ':');
    push_str(&mut out, pad((rem % 3_600) / 60, 2).as_str());
    push_char(&mut out, ':');
    push_str(&mut out, pad(rem % 60, 2).as_str());
    push_char(&mut out, 'Z');
    assert(out@ =~= date + seq!['T'] + padded((rem / 3_600) as nat, 2) + seq![':'] + padded(((rem % 3_600) / 60) as nat, 2)
        + seq![':'] + padded((rem % 60) as nat, 2) + seq!['Z']);
    out
}

} // verus!
