//! The mission's monitor: a process of its own, one per mission, that
//! watches a run at night and calls `verify` again once a wait is over.
//!
//! Every minute while a run goes, it measures the account's windows and ends
//! the run's turn past the threshold. When no run goes, it calls `verify`
//! and sleeps to the next deadline it knows: the harness wait, or the
//! window's reset. It stops when the mission needs a human or has nothing
//! left it can launch. Starting processes, sleeping and asking `ps` are the
//! program's part; every decision of the loop is here.

use vstd::prelude::*;
use crate::harness::{Role, RunState};
use crate::mission::flow::{Handover, Stage};
use crate::text::{
    contains_text, debug_quoted, decimal, join, join_path, join_strings, owned, path_file_name, path_join, push_str,
    quoted, spec_decimal, str_contains, str_eq, views, words,
};
use crate::verify::{role_name, Step, VerifyError};

verus! {

/// Where monitors keep their pid and their log, under the HQ.
pub const MONITORS_DIR: &'static str = "monitors";
/// How often a run under way is looked at.
pub const TICK_SECONDS: u64 = 60;
/// The name the monitor takes the slot's lock under.
pub const LOCK_VERB: &'static str = "mission monitor";

/// Why a monitor could not be started.
#[derive(Debug)]
pub enum MonitorError {
    /// Only the `hq` binary starts a monitor.
    NotHq(String),
    Io(String, String),
}

/// What starting a monitor found or did.
#[derive(Debug, Clone, Copy, PartialEq, Eq)]
pub enum Ensured {
    /// A monitor was already watching, with this pid.
    Running(u32),
    /// One was started, with this pid.
    Started(u32),
}

/// Where a mission's monitor keeps its pid.
pub fn pidfile(hq_root: &str, id: &str) -> (r: String)
    ensures
        r@ == path_join(path_join(hq_root@, MONITORS_DIR@), id@ + ".pid"@),
{
    let dir = join_path(hq_root, MONITORS_DIR);
    let mut f = owned(id);
    push_str(&mut f, ".pid");
    join_path(dir.as_str(), f.as_str())
}

/// Where a mission's monitor writes its log.
pub fn logfile(hq_root: &str, id: &str) -> (r: String)
    ensures
        r@ == path_join(path_join(hq_root@, MONITORS_DIR@), id@ + ".log"@),
{
    let dir = join_path(hq_root, MONITORS_DIR);
    let mut f = owned(id);
    push_str(&mut f, ".log");
    join_path(dir.as_str(), f.as_str())
}

/// Whether a process's command line (`line`, as `ps` prints it) is a
/// monitor of mission `id`: a pid alone would do for a while, until the
/// system hands it to something else.
pub fn is_monitor(line: &str, id: &str) -> (b: bool)
    ensures
        b == (contains_text(line@, "mission monitor"@) && crate::text::words(line@).contains(id@)),
{
    if !str_contains(line, "mission monitor") {
        return false;
    }
    let ws = crate::text::split_words(line);
    let mut i: usize = 0;
    while i < ws.len()
        invariant
            i <= ws@.len(),
            views(ws@) == crate::text::words(line@),
            contains_text(line@, "mission monitor"@),
            forall|j: int| 0 <= j < i ==> ws@[j]@ != id@,
        decreases ws@.len() - i,
    {
        if str_eq(ws[i].as_str(), id) {
            assert(views(ws@)[i as int] == id@);
            return true;
        }
        i += 1;
    }
    assert(!crate::text::words(line@).contains(id@)) by {
        if crate::text::words(line@).contains(id@) {
            let j = choose|j: int| 0 <= j < views(ws@).len() && views(ws@)[j] == id@;
            assert(ws@[j]@ == id@);
        }
    }
    false
}

/// The pid a pid file holds, when it holds one.
pub fn pid_in(text: &str) -> (r: Option<u32>)
    ensures
        r == crate::text::parse_u32(crate::text::trim(text@)),
{
    crate::text::parse_u32_text(crate::text::trimmed(text).as_str())
}

/// Whether the mission has anything a monitor would watch or wait for: a
/// run recorded, or a wait that ends by itself (the harness waited out until
/// `harness_wait`, or the account's window resetting at `reset`). A mission
/// that needs a human does not: a monitor started there would stop at once.
pub fn wanted(held: bool, stage: &Stage, has_run: bool, harness_wait: Option<u64>, reset: Option<u64>, now: u64) -> (b: bool)
    ensures
        b == (!held && !(*stage is Verified || *stage is AwaitingHuman || *stage is Findings) && (has_run
            || (harness_wait matches Some(w) && w > now) || reset is Some)),
{
    if held {
        return false;
    }
    match stage {
        Stage::Verified | Stage::AwaitingHuman(_) | Stage::Findings { .. } => return false,
        _ => {},
    }
    if has_run {
        return true;
    }
    let waiting = match harness_wait {
        Some(w) => w > now,
        None => false,
    };
    waiting || reset.is_some()
}

/// The larger of two moments, when there is a second.
pub open spec fn later(a: int, b: Option<u64>) -> int {
    match b {
        Some(x) => if x > a { x as int } else { a },
        None => a,
    }
}

/// The next moment worth looking again: a minute while a run goes;
/// otherwise the harness wait or the window's reset, when one is further off
/// than that.
pub fn next_wake(now: u64, has_run: bool, harness_wait: Option<u64>, reset: Option<u64>) -> (r: u64)
    requires
        now + TICK_SECONDS <= u64::MAX,
    ensures
        has_run ==> r == now + TICK_SECONDS,
        !has_run ==> r == later(later(now + TICK_SECONDS, harness_wait), reset),
{
    let tick = now + TICK_SECONDS;
    if has_run {
        return tick;
    }
    let mut wake = tick;
    match harness_wait {
        Some(w) => if w > wake { wake = w; },
        None => {},
    }
    match reset {
        Some(x) => if x > wake { wake = x; },
        None => {},
    }
    wake
}

/// Whether a binary may start a monitor: only one named `hq`, so that a
/// test binary never forks itself into a detached process.
pub fn may_start(exe: &str) -> (r: Result<(), MonitorError>)
    ensures
        path_file_name(exe@) == Some("hq"@) ==> r is Ok,
        path_file_name(exe@) != Some("hq"@) ==> (r matches Err(MonitorError::NotHq(p)) && p@ == exe@),
{
    match crate::text::file_name_of(exe) {
        Some(n) => if str_eq(n.as_str(), "hq") {
            proof {
                reveal_strlit("hq");
            }
            Ok(())
        } else {
            Err(MonitorError::NotHq(owned(exe)))
        },
        None => Err(MonitorError::NotHq(owned(exe))),
    }
}

/// A list of texts, written as `["a", "b"]`.
pub open spec fn debug_list(items: Seq<Seq<char>>) -> Seq<char> {
    "["@ + join(items.map_values(|s: Seq<char>| debug_quoted(s)), ", "@) + "]"@
}

/// A handover, written as its variant and fields.
pub open spec fn debug_handover(h: Handover) -> Seq<char> {
    match h {
        Handover::LotAttemptsExhausted { lot, attempts } => "LotAttemptsExhausted { lot: "@ + debug_quoted(lot@)
            + ", attempts: "@ + spec_decimal(attempts as nat) + " }"@,
        Handover::RoleAttemptsExhausted { role, attempts } => "RoleAttemptsExhausted { role: "@ + role_name(role)
            + ", attempts: "@ + spec_decimal(attempts as nat) + " }"@,
        Handover::VoletsExhausted { causes } => "VoletsExhausted { causes: "@ + debug_list(views(causes@)) + " }"@,
        Handover::Abandoned { reason } => "Abandoned { reason: "@ + debug_quoted(reason@) + " }"@,
    }
}

fn handover_text(h: &Handover) -> (r: String)
    ensures
        r@ == debug_handover(*h),
{
    match h {
        Handover::LotAttemptsExhausted { lot, attempts } => {
            let mut r = owned("LotAttemptsExhausted { lot: ");
            push_str(&mut r, quoted(lot.as_str()).as_str());
            push_str(&mut r, ", attempts: ");
            push_str(&mut r, decimal(*attempts as u64).as_str());
            push_str(&mut r, " }");
            r
        },
        Handover::RoleAttemptsExhausted { role, attempts } => {
            let mut r = owned("RoleAttemptsExhausted { role: ");
            push_str(&mut r, match role { Role::Coder => "Coder", Role::Integrator => "Integrator", Role::Security => "Security" });
            push_str(&mut r, ", attempts: ");
            push_str(&mut r, decimal(*attempts as u64).as_str());
            push_str(&mut r, " }");
            r
        },
        Handover::VoletsExhausted { causes } => {
            let mut q: Vec<String> = Vec::new();
            let mut i: usize = 0;
            while i < causes.len()
                invariant
                    i <= causes@.len(),
                    views(q@) == views(causes@).take(i as int).map_values(|s: Seq<char>| debug_quoted(s)),
                decreases causes@.len() - i,
            {
                let ghost before = views(q@);
                q.push(quoted(causes[i].as_str()));
                assert(views(q@) =~= before.push(debug_quoted(causes@[i as int]@)));
                i += 1;
                assert(views(q@) =~= views(causes@).take(i as int).map_values(|s: Seq<char>| debug_quoted(s)));
            }
            assert(views(causes@).take(i as int) =~= views(causes@));
            let mut list = owned("[");
            push_str(&mut list, join_strings(q.as_slice(), ", ").as_str());
            push_str(&mut list, "]");
            let mut r = owned("VoletsExhausted { causes: ");
            push_str(&mut r, list.as_str());
            push_str(&mut r, " }");
            r
        },
        Handover::Abandoned { reason } => {
            let mut r = owned("Abandoned { reason: ");
            push_str(&mut r, quoted(reason.as_str()).as_str());
            push_str(&mut r, " }");
            r
        },
    }
}

/// What the monitor does after a `verify`.
#[derive(Debug, Clone, PartialEq, Eq)]
pub enum Next {
    /// Look again at the next wake.
    Continue,
    /// Stop, and say why.
    Exit(String),
}

/// What the monitor makes of a `verify`'s last step: stop where nothing is
/// left that it may do without a human, go on otherwise.
pub open spec fn after_step(last: Option<Step>) -> Option<Seq<char>> {
    match last {
        Some(Step::Verified) => Some("verified — the human reads it, then `hq push`"@),
        Some(Step::AwaitingHuman(h)) => Some("handed over to the human: "@ + debug_handover(h)),
        Some(Step::Held { who, reason, .. }) => Some(match reason {
            Some(r) => "held by "@ + who@ + ": "@ + r@,
            None => "held by "@ + who@,
        }),
        Some(Step::Findings { .. }) => Some("the security agent's findings are the human's to iterate or lift"@),
        Some(Step::NeedsRun { role, why }) => Some("a "@ + role_name(role) + " run is owed and hq does not launch it yet: "@
            + why@),
        _ => None,
    }
}

/// After a `verify`: go on, or stop because nothing is left that the engine
/// may do without a human. A human driving the slot, a run still going, or
/// one just told to end its turn are things that pass; any other failure is
/// a human's to look at (`said` is what that failure says).
pub fn after_verify(result: &Result<Vec<Step>, VerifyError>, said: &str) -> (r: Next)
    ensures
        match result {
            Ok(steps) => match after_step(if steps@.len() > 0 { Some(steps@.last()) } else { None }) {
                Some(why) => r matches Next::Exit(w) && w@ == why,
                None => r == Next::Continue,
            },
            Err(VerifyError::Lock(crate::state::lock::LockError::Held { .. })) => r == Next::Continue,
            Err(VerifyError::RunInProgress { .. }) => r == Next::Continue,
            Err(VerifyError::Spared { .. }) => r == Next::Continue,
            Err(_) => r matches Next::Exit(w) && w@ == "verify failed, and a human should look: "@ + said@,
        },
{
    match result {
        Ok(steps) => {
            if steps.len() == 0 {
                return Next::Continue;
            }
            match &steps[steps.len() - 1] {
                Step::Verified => Next::Exit(owned("verified — the human reads it, then `hq push`")),
                Step::AwaitingHuman(h) => {
                    let mut w = owned("handed over to the human: ");
                    push_str(&mut w, handover_text(h).as_str());
                    Next::Exit(w)
                },
                Step::Held { who, reason, .. } => {
                    let mut w = owned("held by ");
                    push_str(&mut w, who.as_str());
                    match reason {
                        Some(r) => {
                            push_str(&mut w, ": ");
                            push_str(&mut w, r.as_str());
                        },
                        None => {},
                    }
                    Next::Exit(w)
                },
                Step::Findings { .. } => Next::Exit(owned("the security agent's findings are the human's to iterate or lift")),
                Step::NeedsRun { role, why } => {
                    let mut w = owned("a ");
                    push_str(&mut w, match role { Role::Coder => "Coder", Role::Integrator => "Integrator", Role::Security => "Security" });
                    push_str(&mut w, " run is owed and hq does not launch it yet: ");
                    push_str(&mut w, why.as_str());
                    Next::Exit(w)
                },
                _ => Next::Continue,
            }
        },
        Err(VerifyError::Lock(crate::state::lock::LockError::Held { .. })) => Next::Continue,
        Err(VerifyError::RunInProgress { .. }) => Next::Continue,
        Err(VerifyError::Spared { .. }) => Next::Continue,
        Err(_) => {
            let mut w = owned("verify failed, and a human should look: ");
            push_str(&mut w, said);
            Next::Exit(w)
        },
    }
}

/// What one turn of the watch does, given the state of the run recorded
/// for the current stage, if one is.
#[derive(Debug, Clone, Copy, PartialEq, Eq)]
pub enum Watch {
    /// A run goes: measure the windows, spare it past the threshold, and
    /// look again in a minute.
    Measure,
    /// A human froze the run, and a frozen run is theirs to thaw: look
    /// again in a minute.
    Wait,
    /// No run goes, or it ended, or it cannot be reached: `verify` reads it
    /// back, or says it cannot.
    Verify,
}

/// One turn of the watch, from the state of the recorded run (`None` when
/// there is none, or the harness could not say).
pub fn watch(run: Option<&RunState>) -> (r: Watch)
    ensures
        r == match run {
            Some(RunState::Running(_)) => Watch::Measure,
            Some(RunState::Paused(_)) => Watch::Wait,
            _ => Watch::Verify,
        },
{
    match run {
        Some(RunState::Running(_)) => Watch::Measure,
        Some(RunState::Paused(_)) => Watch::Wait,
        _ => Watch::Verify,
    }
}

} // verus!
