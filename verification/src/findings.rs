//! Lifting a security verdict, and sending it back to the coder.
//!
//! Nothing red is ever pushed, and there is no flag to push past a verdict.
//! A `FINDINGS` verdict closes one of three ways, and two of them are
//! gestures a human makes: the mission goes back to the coder as a volet
//! (`iterate`), or a human lifts the risk, with a reason (`accept`). Neither
//! ever touches `VERDICT.json`: the verdict says what the agent found, the
//! state says what the human decided. Writing the records and the state is
//! the program's part; what each gesture refuses is decided here.

use vstd::prelude::*;
use crate::mission::flow::Stage;
use crate::text::{owned, trim, trimmed};

verus! {

/// What a human is lifting.
#[derive(Debug, Clone, PartialEq, Eq)]
pub enum Lift {
    /// One finding, named as the report names it. The verdict stays where it
    /// is: itemising is not concluding.
    Finding(String),
    /// What the report still carries: the one that moves the mission on.
    Verdict,
}

/// Why a gesture on findings was refused.
#[derive(Debug)]
pub enum FindingsError {
    NotStarted(String),
    NotOnFindings { mission: String, stage: Stage },
    NoReason,
    NoHuman,
    State(crate::state::StateError),
    Lock(crate::state::lock::LockError),
    Slot(crate::slot::SlotError),
    Git(crate::git::GitError),
    Followup(crate::followup::FollowupError),
}

/// The reason a risk is accepted for, trimmed, or the refusal: a risk
/// accepted without a reason is not accepted, it is forgotten.
pub fn reason(why: &str) -> (r: Result<String, FindingsError>)
    ensures
        trim(why@).len() == 0 ==> r matches Err(FindingsError::NoReason),
        trim(why@).len() > 0 ==> (r matches Ok(w) && w@ == trim(why@)),
{
    let w = trimmed(why);
    if w.as_str().unicode_len() == 0 { Err(FindingsError::NoReason) } else { Ok(w) }
}

/// Who is lifting, or the refusal: a lift is a human's, and an unnamed one
/// is nobody's.
pub fn who(name: Option<String>) -> (r: Result<String, FindingsError>)
    ensures
        match name {
            Some(n) => r matches Ok(w) && w == n,
            None => r matches Err(FindingsError::NoHuman),
        },
{
    match name {
        Some(n) => Ok(n),
        None => Err(FindingsError::NoHuman),
    }
}

/// A gesture on findings needs the mission to be on a security verdict.
pub fn on_findings(id: &str, stage: Stage) -> (r: Result<(), FindingsError>)
    ensures
        stage is Findings ==> r is Ok,
        !(stage is Findings) ==> (r matches Err(FindingsError::NotOnFindings { mission, stage: s }) && mission@ == id@
            && s == stage),
{
    match stage {
        Stage::Findings { .. } => Ok(()),
        s => Err(FindingsError::NotOnFindings { mission: owned(id), stage: s }),
    }
}

/// The finding a lift names, when it names one: the whole verdict names
/// none.
pub fn lifted_finding(lift: &Lift) -> (r: Option<String>)
    ensures
        match *lift {
            Lift::Finding(f) => r matches Some(g) && g@ == f@,
            Lift::Verdict => r is None,
        },
{
    match lift {
        Lift::Finding(f) => Some(owned(f.as_str())),
        Lift::Verdict => None,
    }
}

} // verus!
