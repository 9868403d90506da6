//! Waiting out the harness.
//!
//! A run that fell for a harness cause — quota, network, a harness crash —
//! is replayed without costing an attempt, but not at once: each failure in
//! a row doubles the wait before the next launch, from two minutes up to an
//! hour. Once waiting again would run past the mission's ceiling, `hq` holds
//! the mission and hands it to the human. An authentication failure goes to
//! the human at once: no wait mends a revoked token.
//!
//! Pure: every function takes the time it is asked about.

use vstd::prelude::*;
use crate::harness::Fault;
use crate::state::{rfc3339, spec_rfc3339};
use crate::text::{decimal, owned, push_str, spec_decimal};

verus! {

/// The wait after the first failure.
pub const FIRST_WAIT_MINUTES: u64 = 2;
/// No single wait is longer than this.
pub const LONGEST_WAIT_MINUTES: u64 = 60;

/// Harness failures in a row, kept with the mission.
#[derive(Debug, Clone, PartialEq, Eq)]
pub struct HarnessDown {
    /// Failures in a row since the harness last carried a run through.
    pub failures: u32,
    /// Epoch seconds of the first of them.
    pub since: u64,
    /// Epoch seconds before which no run is launched.
    pub not_before: u64,
    /// What the harness said the last time.
    pub last: String,
}

/// What follows a harness failure.
#[derive(Debug, Clone, PartialEq, Eq)]
pub enum Next {
    /// Launch nothing before this epoch second.
    Wait { until: u64 },
    /// Hold the mission for the human, and say why.
    Human { why: String },
}

/// The wait after the `failures`-th failure in a row: 2, 4, 8, 16, 32, then
/// 60 minutes every time.
pub open spec fn spec_wait_minutes(failures: nat) -> nat {
    if failures <= 1 { 2 }
    else if failures == 2 { 4 }
    else if failures == 3 { 8 }
    else if failures == 4 { 16 }
    else if failures == 5 { 32 }
    else { 60 }
}

/// The wait after the `failures`-th failure in a row: 2, 4, 8, 16, 32, then
/// 60 minutes every time.
pub fn wait_minutes(failures: u32) -> (m: u64)
    ensures
        m == spec_wait_minutes(failures as nat),
{
    let doublings: u64 = if failures == 0 { 0 } else { (failures - 1) as u64 };
    let doublings: u64 = if doublings > 16 { 16 } else { doublings };
    let w: u64 = FIRST_WAIT_MINUTES << doublings;
    assert(doublings <= 16 ==> (
        (doublings == 0 ==> (2u64 << doublings) == 2)
        && (doublings == 1 ==> (2u64 << doublings) == 4)
        && (doublings == 2 ==> (2u64 << doublings) == 8)
        && (doublings == 3 ==> (2u64 << doublings) == 16)
        && (doublings == 4 ==> (2u64 << doublings) == 32)
        && (doublings >= 5 ==> (2u64 << doublings) >= 64))) by (bit_vector);
    if w < LONGEST_WAIT_MINUTES { w } else { LONGEST_WAIT_MINUTES }
}

/// What is said when the harness could not authenticate.
pub open spec fn authentication_message(why: Seq<char>) -> Seq<char> {
    "the harness could not authenticate ("@ + why
        + ") — no wait mends a token: log in again, then lift the hold"@
}

/// What is said when waiting again would pass the mission's ceiling.
pub open spec fn ceiling_message(failures: nat, since: nat, ceiling_hours: nat, why: Seq<char>) -> Seq<char> {
    "the harness has failed "@ + spec_decimal(failures) + " time(s) in a row since "@
        + spec_rfc3339(since) + ", and waiting again would pass the "@ + spec_decimal(ceiling_hours)
        + "-hour ceiling — last: "@ + why
}

/// The record after one more failure.
pub open spec fn spec_after_record(previous: Option<HarnessDown>, fault: Fault, now: nat) -> (int, int, int) {
    let failures = match previous { Some(p) => p.failures + 1, None => 1 };
    let since = match previous { Some(p) => p.since as int, None => now as int };
    let until = now + spec_wait_minutes(failures as nat) * 60;
    (failures as int, since, until as int)
}

/// Count one more failure, and say what follows it.
pub fn after(
    previous: Option<&HarnessDown>,
    fault: &Fault,
    now: u64,
    ceiling_hours: u32,
) -> (r: (HarnessDown, Next))
    requires
        previous matches Some(p) ==> p.failures < u32::MAX,
        now <= u64::MAX - 3600,
    ensures
        ({
            let (failures, since, until) = spec_after_record(
                match previous { Some(p) => Some(*p), None => None }, *fault, now as nat);
            &&& r.0.failures == failures
            &&& r.0.since == since
            &&& r.0.not_before == until
            &&& r.0.last@ == fault.why@
            &&& if fault.authentication {
                r.1 matches Next::Human { why } && why@ == authentication_message(fault.why@)
            } else if until - since > ceiling_hours * 3600 {
                r.1 matches Next::Human { why }
                    && why@ == ceiling_message(failures as nat, since as nat, ceiling_hours as nat, fault.why@)
            } else {
                r.1 == Next::Wait { until: until as u64 }
            }
        }),
{
    let failures: u32 = match previous { Some(p) => p.failures + 1, None => 1 };
    let since: u64 = match previous { Some(p) => p.since, None => now };
    let until: u64 = now + wait_minutes(failures) * 60;
    let record = HarnessDown {
        failures,
        since,
        not_before: until,
        last: fault.why.clone(),
    };
    let next = if fault.authentication {
        let mut why = owned("the harness could not authenticate (");
        push_str(&mut why, fault.why.as_str());
        push_str(&mut why, ") — no wait mends a token: log in again, then lift the hold");
        Next::Human { why }
    } else if until.saturating_sub(since) > (ceiling_hours as u64) * 3600 {
        let mut why = owned("the harness has failed ");
        push_str(&mut why, decimal(failures as u64).as_str());
        push_str(&mut why, " time(s) in a row since ");
        push_str(&mut why, rfc3339(since).as_str());
        push_str(&mut why, ", and waiting again would pass the ");
        push_str(&mut why, decimal(ceiling_hours as u64).as_str());
        push_str(&mut why, "-hour ceiling — last: ");
        push_str(&mut why, fault.why.as_str());
        Next::Human { why }
    } else {
        Next::Wait { until }
    };
    (record, next)
}

/// Whether a run may be launched at `now`.
pub fn due(record: Option<&HarnessDown>, now: u64) -> (b: bool)
    ensures
        b == match record { None => true, Some(r) => now >= r.not_before },
{
    match record {
        None => true,
        Some(r) => now >= r.not_before,
    }
}

/// A failure in a row never waits less than the one before it, nor past an
/// hour.
pub proof fn lemma_wait_grows(a: nat, b: nat)
    requires
        a <= b,
    ensures
        spec_wait_minutes(a) <= spec_wait_minutes(b),
        FIRST_WAIT_MINUTES <= spec_wait_minutes(b) <= LONGEST_WAIT_MINUTES,
{
}

} // verus!
