//! The human's gestures on a run.
//!
//! They apply to the container, never to a hook the agent could fail to see,
//! and they always pass, slot lock or no slot lock: a brake that waited on a
//! lock held by a dead session would not work when it is needed. `say` is
//! here for the opposite reason: there is no channel during a run, so an
//! instruction is left for the next one. Freezing and killing containers is
//! the program's part; what each gesture needs is decided here.

use vstd::prelude::*;
use crate::text::{owned, trim, trimmed};

verus! {

/// Why a gesture had nothing to act on.
#[derive(Debug)]
pub enum GestureError {
    NotStarted(String),
    NoRun(String),
    NothingSaid,
    Engine(crate::engine::EngineError),
    State(crate::state::StateError),
    Compose(crate::compose::ComposeError),
    Followup(crate::followup::FollowupError),
}

/// Which way the freeze goes.
#[derive(Debug, Clone, Copy, PartialEq, Eq)]
pub enum Freeze {
    On,
    Off,
}

/// A gesture on a run needs a mission that has started and a run recorded.
pub fn target(id: &str, started: bool, has_run: bool) -> (r: Result<(), GestureError>)
    ensures
        !started ==> (r matches Err(GestureError::NotStarted(m)) && m@ == id@),
        started && !has_run ==> (r matches Err(GestureError::NoRun(m)) && m@ == id@),
        started && has_run ==> r is Ok,
{
    if !started {
        return Err(GestureError::NotStarted(owned(id)));
    }
    if !has_run {
        return Err(GestureError::NoRun(owned(id)));
    }
    Ok(())
}

/// What an instruction for the next run says, trimmed, or the refusal: an
/// empty instruction is not one.
pub fn said(what: &str) -> (r: Result<String, GestureError>)
    ensures
        trim(what@).len() == 0 ==> r matches Err(GestureError::NothingSaid),
        trim(what@).len() > 0 ==> (r matches Ok(w) && w@ == trim(what@)),
{
    let w = trimmed(what);
    if w.as_str().unicode_len() == 0 { Err(GestureError::NothingSaid) } else { Ok(w) }
}

} // verus!
