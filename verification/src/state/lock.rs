//! One lock per slot.
//!
//! Only the verbs that change a slot's state take it. An orphan lock lifts
//! itself: the file carries the pid and the time of its taker, and a pid that
//! no longer exists means the lock is free, with a line said about it, never
//! silently. Creating the file, reading it back and asking whether a process
//! lives are the program's part; what each answer means is decided here.

use vstd::prelude::*;
use crate::text::{decimal, join_path, owned, path_join, push_str, spec_decimal};

verus! {

/// Why a lock could not be had.
#[derive(Debug)]
pub enum LockError {
    /// A live process holds it.
    Held { slot: String, verb: String, pid: u32, since: String },
    /// The lock file could not be handled.
    Io { path: String, why: String },
}

/// What a lock error says.
pub open spec fn lock_error_message(e: LockError) -> Seq<char> {
    match e {
        LockError::Held { slot, verb, pid, since } => "slot "@ + slot@ + " is locked by `hq "@ + verb@ + "` (pid "@
            + spec_decimal(pid as nat) + ", since "@ + since@ + ")"@,
        LockError::Io { path, why } => "io on "@ + path@ + ": "@ + why@,
    }
}

impl LockError {
    /// What the error says.
    pub fn message(&self) -> (r: String)
        ensures
            r@ == lock_error_message(*self),
    {
        match self {
            LockError::Held { slot, verb, pid, since } => {
                let mut m = owned("slot ");
                push_str(&mut m, slot.as_str());
                push_str(&mut m, " is locked by `hq ");
                push_str(&mut m, verb.as_str());
                push_str(&mut m, "` (pid ");
                push_str(&mut m, decimal(*pid as u64).as_str());
                push_str(&mut m, ", since ");
                push_str(&mut m, since.as_str());
                push_str(&mut m, ")");
                m
            },
            LockError::Io { path, why } => {
                let mut m = owned("io on ");
                push_str(&mut m, path.as_str());
                push_str(&mut m, ": ");
                push_str(&mut m, why.as_str());
                m
            },
        }
    }
}

/// What the lock file says.
#[derive(Debug, Clone, PartialEq, Eq)]
pub struct LockInfo {
    pub slot: String,
    pub verb: String,
    pub pid: u32,
    pub since: String,
}

/// A held lock.
#[derive(Debug)]
pub struct SlotLock {
    path: String,
    info: LockInfo,
    /// What was found and taken over, if an orphan lock was lifted.
    lifted: Option<LockInfo>,
}

/// Where the lock of `slot` is: `<locks>/<slot>.lock`.
pub fn lock_path(locks_dir: &str, slot: &str) -> (r: String)
    ensures
        r@ == path_join(locks_dir@, slot@ + ".lock"@),
{
    let mut file = owned(slot);
    push_str(&mut file, ".lock");
    join_path(locks_dir, file.as_str())
}

/// What an existing lock file means for a taker, given what it says
/// (`holder`, nothing when it cannot be read) and whether that process is
/// alive: a live holder refuses the taker; a dead one, or an unreadable
/// file, is lifted and the taking tried again, remembering the last lock
/// lifted that could be read.
pub fn on_existing(holder: Option<LockInfo>, alive: bool, lifted: Option<LockInfo>) -> (r: Result<Option<LockInfo>, LockError>)
    ensures
        match holder {
            Some(h) => if alive {
                r matches Err(LockError::Held { slot, verb, pid, since }) && slot == h.slot && verb == h.verb
                    && pid == h.pid && since == h.since
            } else {
                r == Ok::<Option<LockInfo>, LockError>(Some(h))
            },
            None => r == Ok::<Option<LockInfo>, LockError>(lifted),
        },
{
    match holder {
        Some(h) => if alive {
            Err(LockError::Held { slot: h.slot, verb: h.verb, pid: h.pid, since: h.since })
        } else {
            Ok(Some(h))
        },
        None => Ok(lifted),
    }
}

impl SlotLock {
    /// The lock, taken at `path` by `info`, having lifted `lifted`.
    pub fn taken(path: String, info: LockInfo, lifted: Option<LockInfo>) -> (r: SlotLock)
        ensures
            r.path_view() == path@,
            r.info_view() == info,
            r.lifted_view() == lifted,
    {
        SlotLock { path, info, lifted }
    }

    /// Where the lock file is.
    pub closed spec fn path_view(&self) -> Seq<char> {
        self.path@
    }

    /// Who holds it.
    pub closed spec fn info_view(&self) -> LockInfo {
        self.info
    }

    /// What was lifted to take it.
    pub closed spec fn lifted_view(&self) -> Option<LockInfo> {
        self.lifted
    }

    /// Who holds the lock.
    pub fn info(&self) -> (r: &LockInfo)
        ensures
            *r == self.info_view(),
    {
        &self.info
    }

    /// The orphan lock this acquisition lifted, if any, so the caller can
    /// say so in its journal.
    pub fn lifted(&self) -> (r: Option<&LockInfo>)
        ensures
            match (r, self.lifted_view()) {
                (Some(a), Some(b)) => *a == b,
                (None, None) => true,
                _ => false,
            },
    {
        match &self.lifted {
            Some(l) => Some(l),
            None => None,
        }
    }

    /// Where the lock file is.
    pub fn path(&self) -> (r: &str)
        ensures
            r@ == self.path_view(),
    {
        self.path.as_str()
    }

    /// Who holds the lock on a slot, if anyone alive, from what its file
    /// says and whether that process lives.
    pub fn holder(read: Option<LockInfo>, alive: bool) -> (r: Option<LockInfo>)
        ensures
            r == if alive { read } else { None::<LockInfo> },
    {
        if alive { read } else { None }
    }

    /// Whether the lock file is still this lock's, so that releasing it does
    /// not delete a lock another process has since taken.
    pub fn still_ours(&self, read: &Option<LockInfo>) -> (b: bool)
        ensures
            b == (read matches Some(h) && h.pid == self.info_view().pid),
    {
        match read {
            Some(h) => h.pid == self.info.pid,
            None => false,
        }
    }
}

} // verus!
