//! What a subscription has left, as its harness reports it.
//!
//! A subscription is limited in two windows at once, five hours and a week,
//! and a harness that knows says how far each is used. The measures are kept
//! per account, at `~/.hq/usage/<account>.json`, and judged before every
//! launch: past a threshold, nothing is launched until that window resets.
//! Between two readings the last measure stands.

use vstd::prelude::*;
use crate::account::{known_message, not_named_message, unknown_message, Accounts, INDEX_FILE};
use crate::mission::Bounds;
use crate::text::{decimal, join_path, owned, path_join, push_char, push_str, spec_decimal};

verus! {

/// Where the measures live, under `~/.hq/`.
pub const USAGE_DIR: &'static str = "usage";

/// One window: how much of it is used, in thousandths, and when it resets
/// (epoch seconds).
#[derive(Debug, Clone, Copy, PartialEq, Eq)]
pub struct Window {
    pub per_mille: u32,
    pub resets_at: u64,
}

/// Both windows, each absent when the harness did not report it.
#[derive(Debug, Clone, Copy, PartialEq, Eq, Default)]
pub struct Windows {
    pub five_hour: Option<Window>,
    pub weekly: Option<Window>,
}

/// A measure, as kept for one account.
#[derive(Debug, Clone, PartialEq, Eq)]
pub struct Measure {
    pub windows: Windows,
    /// Epoch seconds of the reading.
    pub measured_at: u64,
    /// The harness that reported it.
    pub harness: String,
}

/// Which of the two windows.
#[derive(Debug, Clone, Copy, PartialEq, Eq)]
pub enum Kind {
    FiveHour,
    Weekly,
}

impl Kind {
    /// The window's name, as a human reads it.
    pub fn name(self) -> (r: &'static str)
        ensures
            r@ == match self {
                Kind::FiveHour => "five-hour window"@,
                Kind::Weekly => "weekly window"@,
            },
    {
        match self {
            Kind::FiveHour => "five-hour window",
            Kind::Weekly => "weekly window",
        }
    }
}

/// A window past its threshold, and when it resets.
#[derive(Debug, Clone, Copy, PartialEq, Eq)]
pub struct Over {
    pub kind: Kind,
    pub per_mille: u32,
    pub stop_at_percent: u32,
    pub until: u64,
}

/// Where the measure of `account` is kept.
pub fn path(hq_home: &str, account: &str) -> (r: String)
    ensures
        r@ == path_join(path_join(hq_home@, USAGE_DIR@), account@ + ".json"@),
{
    let dir = join_path(hq_home, USAGE_DIR);
    let mut file = owned(account);
    push_str(&mut file, ".json");
    join_path(dir.as_str(), file.as_str())
}

/// `percent` in thousandths, as `u32::saturating_mul` gives it.
pub open spec fn threshold(percent: u32) -> int {
    if percent * 10 > u32::MAX { u32::MAX as int } else { percent * 10 }
}

/// One window, judged: past its threshold and not yet reset.
pub open spec fn judged(kind: Kind, window: Option<Window>, percent: u32, now: u64) -> Option<Over> {
    match window {
        Some(w) => if w.resets_at > now && w.per_mille >= threshold(percent) {
            Some(Over { kind, per_mille: w.per_mille, stop_at_percent: percent, until: w.resets_at })
        } else {
            None
        },
        None => None,
    }
}

/// The window that forbids a launch at `now`: when both do, the one that
/// resets later.
pub open spec fn spec_over(measure: Measure, bounds: Bounds, now: u64) -> Option<Over> {
    let five = judged(Kind::FiveHour, measure.windows.five_hour, bounds.five_hour_stop_percent, now);
    let week = judged(Kind::Weekly, measure.windows.weekly, bounds.weekly_stop_percent, now);
    match (five, week) {
        (Some(f), Some(w)) => Some(if w.until >= f.until { w } else { f }),
        (Some(f), None) => Some(f),
        (None, w) => w,
    }
}

/// Each window forbids a launch on its own: a window reported, not yet
/// reset, and at or past its stop percent keeps the launch back at least
/// until it resets — the weekly one as much as the five-hour one; and when
/// neither is past its threshold nothing is forbidden.
pub proof fn law_windows(measure: Measure, bounds: Bounds, now: u64)
    ensures
        (measure.windows.weekly matches Some(w) && w.resets_at > now && w.per_mille >= bounds.weekly_stop_percent * 10)
            ==> (spec_over(measure, bounds, now) matches Some(o) && o.until >= measure.windows.weekly->0.resets_at),
        (measure.windows.five_hour matches Some(w) && w.resets_at > now && w.per_mille >= bounds.five_hour_stop_percent * 10)
            ==> (spec_over(measure, bounds, now) matches Some(o) && o.until >= measure.windows.five_hour->0.resets_at),
        spec_over(measure, bounds, now) matches Some(o) ==> o.until > now && (
            (measure.windows.five_hour matches Some(w) && o.until == w.resets_at && o.per_mille == w.per_mille
                && w.per_mille >= threshold(bounds.five_hour_stop_percent))
            || (measure.windows.weekly matches Some(w) && o.until == w.resets_at && o.per_mille == w.per_mille
                && w.per_mille >= threshold(bounds.weekly_stop_percent))),
{
}

fn judge(kind: Kind, window: Option<Window>, percent: u32, now: u64) -> (r: Option<Over>)
    ensures
        r == judged(kind, window, percent, now),
{
    match window {
        Some(w) => {
            let wide: u64 = (percent as u64) * 10;
            let limit: u64 = if wide > 0xffff_ffff { 0xffff_ffff } else { wide };
            if w.resets_at > now && (w.per_mille as u64) >= limit {
                Some(Over { kind, per_mille: w.per_mille, stop_at_percent: percent, until: w.resets_at })
            } else {
                None
            }
        },
        None => None,
    }
}

/// The window that forbids a launch at `now`, if one does.
///
/// A window whose reset has passed forbids nothing: the measure is about a
/// window that is over, and that is how `hq` goes on by itself once it
/// resets. When both are past their threshold, the later reset is the one
/// to wait for.
pub fn over(measure: &Measure, bounds: &Bounds, now: u64) -> (r: Option<Over>)
    ensures
        r == spec_over(*measure, *bounds, now),
{
    let five = judge(Kind::FiveHour, measure.windows.five_hour, bounds.five_hour_stop_percent, now);
    let week = judge(Kind::Weekly, measure.windows.weekly, bounds.weekly_stop_percent, now);
    match (five, week) {
        (Some(f), Some(w)) => Some(if w.until >= f.until { w } else { f }),
        (Some(f), None) => Some(f),
        (None, w) => w,
    }
}

/// Whether the measure on file stands against a new reading: two missions
/// on one account read it at different times, and an older reading must not
/// overwrite a newer one.
pub fn stands(kept: &Option<Measure>, measure: &Measure) -> (r: bool)
    ensures
        r == (kept matches Some(k) && k.measured_at > measure.measured_at),
{
    match kept {
        Some(k) => k.measured_at > measure.measured_at,
        None => false,
    }
}

/// What to keep of a run's stream, under the account the mission spends:
/// nothing when the harness said nothing of the windows.
pub fn note(harness: &str, windows: Option<Windows>, now: u64) -> (r: Option<Measure>)
    ensures
        match windows {
            None => r is None,
            Some(w) => r matches Some(m) && m.windows == w && m.measured_at == now && m.harness@ == harness@,
        },
{
    match windows {
        None => None,
        Some(windows) => Some(Measure { windows, measured_at: now, harness: owned(harness) }),
    }
}

/// Thousandths as a percent a human reads: 530 is "53", 905 is "90.5".
pub open spec fn spec_percent(per_mille: u32) -> Seq<char> {
    if per_mille % 10 == 0 {
        spec_decimal((per_mille / 10) as nat)
    } else {
        spec_decimal((per_mille / 10) as nat) + "."@ + spec_decimal((per_mille % 10) as nat)
    }
}

/// Thousandths as a percent a human reads: 530 is "53", 905 is "90.5".
pub fn percent(per_mille: u32) -> (r: String)
    ensures
        r@ == spec_percent(per_mille),
{
    let whole = decimal((per_mille / 10) as u64);
    if per_mille % 10 == 0 {
        whole
    } else {
        let mut r = whole;
        push_str(&mut r, ".");
        push_str(&mut r, decimal((per_mille % 10) as u64).as_str());
        r
    }
}

/// The account a mission spends, by name, without reading its token: the
/// measure is kept under that name.
pub fn account_of(accounts: &Accounts, hq_home: &str, from_mission: Option<&str>, from_project: Option<&str>) -> (r: Result<String, String>)
    requires
        accounts.well_formed(),
    ensures
        match accounts.choice(from_mission, from_project) {
            None => r matches Err(m) && m@ == not_named_message(path_join(hq_home@, INDEX_FILE@)),
            Some(name) => if accounts.has(name) {
                r matches Ok(n) && n@ == name
            } else {
                r matches Err(m) && m@ == unknown_message(name, known_message(accounts.name_views(), path_join(hq_home@, INDEX_FILE@)))
            },
        },
{
    match accounts.choose_account(hq_home, from_mission, from_project) {
        Ok((name, _)) => Ok(name),
        Err(e) => Err(e.message()),
    }
}

} // verus!
