//! The ledger of sessions: which home belongs to which repository.
//!
//! A home is named by an identifier nothing else carries, and
//! `~/.nunki/sessions.json` says, for each identifier, the repository it
//! belongs to. The ledger is an index, never the authority: every home's
//! `nunki.yaml` names its own repository, so a ledger that disagrees with a
//! home is caught rather than obeyed. Reading and writing the file, and
//! resolving paths on the filesystem, are the program's part.

use vstd::prelude::*;
use crate::text::{keys_sorted, join_path, owned, pairs_map, path_join, push_str, put_pair, str_eq};

verus! {

/// The ledger, beside the accounts, under `~/.nunki/`.
pub const FILE: &'static str = "sessions.json";

/// One pair per project, in identifier order: its identifier, and the
/// repository it belongs to.
pub type Sessions = Vec<(String, String)>;

/// What can go wrong with the ledger.
#[derive(Debug)]
pub enum SessionsError {
    Unreadable(String, String),
    Invalid(String, String),
    Io(String, String),
    Unknown { id: String, file: String },
    StillThere { id: String, root: String },
}

/// What a ledger error says.
pub open spec fn sessions_error_message(e: SessionsError) -> Seq<char> {
    match e {
        SessionsError::Unreadable(f, why) => f@ + " could not be read: "@ + why@,
        SessionsError::Invalid(f, why) => f@ + " is not valid: "@ + why@,
        SessionsError::Io(f, why) => f@ + ": "@ + why@,
        SessionsError::Unknown { id, file } => "no session "@ + id@ + " in "@ + file@ + " — `nunki init` opens one"@,
        SessionsError::StillThere { id, root } => "session "@ + id@ + " still belongs to the repository at "@ + root@
            + ": adopting it here would take its HQ and its missions from there — move that repository, or remove it, first"@,
    }
}

impl SessionsError {
    /// What the error says, in words a human acts on.
    pub fn message(&self) -> (r: String)
        ensures
            r@ == sessions_error_message(*self),
    {
        match self {
            SessionsError::Unreadable(f, why) => {
                let mut m = owned(f.as_str());
                push_str(&mut m, " could not be read: ");
                push_str(&mut m, why.as_str());
                m
            },
            SessionsError::Invalid(f, why) => {
                let mut m = owned(f.as_str());
                push_str(&mut m, " is not valid: ");
                push_str(&mut m, why.as_str());
                m
            },
            SessionsError::Io(f, why) => {
                let mut m = owned(f.as_str());
                push_str(&mut m, ": ");
                push_str(&mut m, why.as_str());
                m
            },
            SessionsError::Unknown { id, file } => {
                let mut m = owned("no session ");
                push_str(&mut m, id.as_str());
                push_str(&mut m, " in ");
                push_str(&mut m, file.as_str());
                push_str(&mut m, " — `nunki init` opens one");
                m
            },
            SessionsError::StillThere { id, root } => {
                let mut m = owned("session ");
                push_str(&mut m, id.as_str());
                push_str(&mut m, " still belongs to the repository at ");
                push_str(&mut m, root.as_str());
                push_str(
                    &mut m,
                    ": adopting it here would take its HQ and its missions from there — move that repository, or remove it, first",
                );
                m
            },
        }
    }
}

/// Where the ledger lives.
pub fn path(nunki_home: &str) -> (r: String)
    ensures
        r@ == path_join(nunki_home@, FILE@),
{
    join_path(nunki_home, FILE)
}

/// The first identifier, in ledger order, whose repository resolves to
/// `here`: `resolved` holds, for each pair, the recorded path as the
/// filesystem resolves it.
pub open spec fn first_at(resolved: Seq<Seq<char>>, here: Seq<char>) -> int {
    crate::text::first_from(0, resolved.len() as int, resolves_here(resolved, here))
}

/// Whether the `i`-th recorded repository resolves to `here`.
pub open spec fn resolves_here(resolved: Seq<Seq<char>>, here: Seq<char>) -> spec_fn(int) -> bool {
    |i: int| resolved[i] == here
}

/// The identifier of the project whose repository is `here`, if it has one.
pub fn find(sessions: &Sessions, resolved: &[String], here: &str) -> (r: Option<String>)
    requires
        resolved@.len() == sessions@.len(),
    ensures
        ({
            let k = first_at(crate::text::views(resolved@), here@);
            match r {
                Some(id) => k < sessions@.len() && id@ == sessions@[k].0@,
                None => k >= sessions@.len(),
            }
        }),
{
    let ghost rv = crate::text::views(resolved@);
    let ghost q = resolves_here(rv, here@);
    let mut i: usize = 0;
    while i < sessions.len()
        invariant
            i <= sessions@.len(),
            resolved@.len() == sessions@.len(),
            rv == crate::text::views(resolved@),
            q == resolves_here(rv, here@),
            crate::text::first_from(0, rv.len() as int, q) == crate::text::first_from(i as int, rv.len() as int, q),
        decreases sessions@.len() - i,
    {
        if str_eq(resolved[i].as_str(), here) {
            assert(q(i as int));
            return Some(owned(sessions[i].0.as_str()));
        }
        assert(!q(i as int));
        i += 1;
    }
    None
}

/// The repository a session records, if the ledger has the session.
pub fn recorded(sessions: &Sessions, id: &str) -> (r: Option<String>)
    requires
        keys_sorted(sessions@),
    ensures
        match r {
            Some(root) => pairs_map(sessions@).dom().contains(id@) && pairs_map(sessions@)[id@] == root@,
            None => !pairs_map(sessions@).dom().contains(id@),
        },
{
    let mut i: usize = 0;
    while i < sessions.len()
        invariant
            i <= sessions@.len(),
            keys_sorted(sessions@),
            forall|j: int| 0 <= j < i ==> sessions@[j].0@ != id@,
        decreases sessions@.len() - i,
    {
        if str_eq(sessions[i].0.as_str(), id) {
            proof {
                crate::text::lemma_pairs_map_at(sessions@, i as int);
            }
            return Some(owned(sessions[i].1.as_str()));
        }
        i += 1;
    }
    proof {
        crate::text::lemma_pairs_map_absent(sessions@, id@);
    }
    None
}

/// The identifier of the project whose repository is `here`, opening a
/// session under `new_id` when `found` says it has none. Idempotent: the same
/// repository keeps the same identifier.
pub fn open(sessions: &mut Sessions, found: Option<String>, new_id: String, here: String) -> (r: String)
    requires
        keys_sorted(old(sessions)@),
    ensures
        keys_sorted(final(sessions)@),
        match found {
            Some(id) => r@ == id@ && final(sessions)@ == old(sessions)@,
            None => r@ == new_id@ && pairs_map(final(sessions)@) == pairs_map(old(sessions)@).insert(new_id@, here@),
        },
{
    match found {
        Some(id) => id,
        None => {
            let id = owned(new_id.as_str());
            put_pair(sessions, (new_id, here));
            id
        },
    }
}

/// Opening a session twice gives the same identifier and leaves the ledger
/// alone: once a session is recorded for a repository, looking that
/// repository up finds it — the only entry resolving there — and opening
/// with what was found returns it and changes nothing.
pub proof fn law_open_twice(sessions: Sessions, id: Seq<char>, resolved: Seq<Seq<char>>, here: Seq<char>)
    requires
        keys_sorted(sessions@),
        pairs_map(sessions@).dom().contains(id),
        resolved.len() == sessions@.len(),
        forall|j: int| 0 <= j < sessions@.len() ==> ((#[trigger] resolved[j]) == here) == (sessions@[j].0@ == id),
    ensures
        first_at(resolved, here) < sessions@.len(),
        sessions@[first_at(resolved, here)].0@ == id,
{
    crate::text::lemma_first_from_bounds(0, resolved.len() as int, resolves_here(resolved, here));
    let k = first_at(resolved, here);
    if k < sessions@.len() {
        assert(resolves_here(resolved, here)(k));
        assert(resolved[k] == here);
    }
    if k >= sessions@.len() {
        assert forall|j: int| 0 <= j < sessions@.len() implies (#[trigger] sessions@[j]).0@ != id by {
            assert(!resolves_here(resolved, here)(j));
            assert(resolved[j] != here);
        }
        crate::text::lemma_pairs_map_absent(sessions@, id);
    }
}

/// Point the session `id` at the repository at `here`: what a human runs
/// after moving or renaming one, so that its HQ and its missions follow. It
/// refuses while the recorded path still holds a repository somewhere else
/// (`recorded_is_here`: the recorded path resolves to `here`;
/// `recorded_has_repository`: it still holds a `.git`).
pub fn adopt(
    sessions: &mut Sessions,
    nunki_home: &str,
    id: &str,
    here: &str,
    recorded_is_here: bool,
    recorded_has_repository: bool,
) -> (r: Result<String, SessionsError>)
    requires
        keys_sorted(old(sessions)@),
    ensures
        keys_sorted(final(sessions)@),
        !pairs_map(old(sessions)@).dom().contains(id@) ==> (r matches Err(SessionsError::Unknown { id: i, file })
            && i@ == id@ && file@ == path_join(nunki_home@, FILE@) && final(sessions)@ == old(sessions)@),
        pairs_map(old(sessions)@).dom().contains(id@) && !recorded_is_here && recorded_has_repository ==> (r matches Err(
            SessionsError::StillThere { id: i, root },
        ) && i@ == id@ && root@ == pairs_map(old(sessions)@)[id@] && final(sessions)@ == old(sessions)@),
        pairs_map(old(sessions)@).dom().contains(id@) && (recorded_is_here || !recorded_has_repository) ==> (r matches Ok(
            at,
        ) && at@ == here@ && pairs_map(final(sessions)@) == pairs_map(old(sessions)@).insert(id@, here@)),
{
    let root = match recorded(sessions, id) {
        Some(root) => root,
        None => return Err(SessionsError::Unknown { id: owned(id), file: path(nunki_home) }),
    };
    if !recorded_is_here && recorded_has_repository {
        return Err(SessionsError::StillThere { id: owned(id), root });
    }
    put_pair(sessions, (owned(id), owned(here)));
    Ok(owned(here))
}

} // verus!
