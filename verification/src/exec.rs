//! Running a command in a slot's container, by default on a clean git copy
//! of `HEAD`, never on the tree the agent has been living in: a battery
//! replayed where an agent left a `Makefile` or a cargo alias proves what
//! that tree does, not what the commit does.
//!
//! The copy keeps its own build cache, in a named volume, and the refresh
//! deliberately does not use `git clean -x`.

use vstd::prelude::*;
use crate::compose::{ComposeError, NamedVolume};
use crate::engine::{EngineError, ExecOutput};
use crate::git::GitError;
use crate::text::{join, join_strings, owned, push_str, trim, trimmed, views};

verus! {

/// Where the clean copy of `HEAD` is mounted, in every profile.
pub const PROOF_AT: &'static str = "/work/proof";

/// The named volume that holds the copy, per slot.
pub fn proof_volume(slot: &str) -> (r: String)
    ensures
        r@ == "nunki-"@ + slot@ + "-proof"@,
{
    let mut r = owned("nunki-");
    push_str(&mut r, slot);
    push_str(&mut r, "-proof");
    r
}

/// Which tree a command runs against.
#[derive(Debug, Clone, Copy, PartialEq, Eq, Structural)]
pub enum On {
    /// The clean copy of `HEAD` — the default, and the only one a proof
    /// should ever be replayed on.
    Proof,
    /// The working tree the agent inhabits. Never during a run.
    Tree,
}

/// What can go wrong running a command in a slot's container.
#[derive(Debug, Clone, PartialEq, Eq)]
pub enum ExecError {
    /// The slot has no profile up.
    NoProfile(String),
    /// The copy of `HEAD` could not be refreshed.
    Refresh(String),
    Engine(EngineError),
    Git(GitError),
    Compose(ComposeError),
}

/// Where a command runs in the container.
pub open spec fn spec_workdir(on: On) -> Seq<char> {
    match on {
        On::Proof => "/work/proof"@,
        On::Tree => "/work/tree"@,
    }
}

/// The command that runs `argv` from the chosen tree: arguments travel as
/// arguments — `"$@"` — so nothing is quoted into a script.
pub fn wrapped(on: On, argv: &[String]) -> (r: Vec<String>)
    ensures
        views(r@) == seq!["sh"@, "-c"@, "cd \"$0\" && exec \"$@\""@, spec_workdir(on)] + views(argv@),
{
    let mut r: Vec<String> = Vec::new();
    r.push(owned("sh"));
    r.push(owned("-c"));
    r.push(owned("cd \"$0\" && exec \"$@\""));
    r.push(match on {
        On::Proof => owned("/work/proof"),
        On::Tree => owned("/work/tree"),
    });
    let ghost head = views(r@);
    crate::text::extend_strings(&mut r, argv, 0);
    assert(views(argv@).subrange(0, argv@.len() as int) =~= views(argv@));
    r
}

/// The script that brings the copy to `head`, creating it the first time:
/// fetch the slot's `HEAD`, check it out detached, reset, clean without `-x`
/// so the build cache stays, and check the copy is on `head`.
pub open spec fn spec_refresh_script(head: Seq<char>) -> Seq<char> {
    "set -eu\nif [ ! -d /work/proof/.git ]; then\n  git clone --quiet --no-hardlinks /work/tree /work/proof\nfi\ncd /work/proof\ngit fetch --quiet /work/tree HEAD\ngit checkout --quiet --detach FETCH_HEAD\ngit reset --quiet --hard FETCH_HEAD\ngit clean -qdff\ntest \"$(git rev-parse HEAD)\" = \""@
        + head + "\"\n"@
}

/// The script that brings the copy to `head`.
pub fn refresh_script(head: &str) -> (r: String)
    ensures
        r@ == spec_refresh_script(head@),
{
    let mut r = owned("set -eu\nif [ ! -d /work/proof/.git ]; then\n  git clone --quiet --no-hardlinks /work/tree /work/proof\nfi\ncd /work/proof\ngit fetch --quiet /work/tree HEAD\ngit checkout --quiet --detach FETCH_HEAD\ngit reset --quiet --hard FETCH_HEAD\ngit clean -qdff\ntest \"$(git rev-parse HEAD)\" = \"");
    push_str(&mut r, head);
    push_str(&mut r, "\"\n");
    r
}

/// What a refresh that failed said: its output and its errors, each trimmed,
/// the empty ones left out, one per line.
pub open spec fn spec_refresh_failure(out: ExecOutput) -> Seq<char> {
    let parts = seq![trim(out.stdout@), trim(out.stderr@)].filter(|p: Seq<char>| p.len() > 0);
    join(parts, "\n"@)
}

/// The end of a refresh: fine when the script succeeded, else the error
/// that says what it printed.
pub fn refreshed(out: &ExecOutput) -> (r: Result<(), ExecError>)
    ensures
        out.status == 0 ==> r is Ok,
        out.status != 0 ==> (r matches Err(ExecError::Refresh(w)) && w@ == spec_refresh_failure(*out)),
{
    if out.ok() {
        return Ok(());
    }
    let a = trimmed(out.stdout.as_str());
    let b = trimmed(out.stderr.as_str());
    let mut parts: Vec<String> = Vec::new();
    let ghost both = seq![a@, b@];
    if !a.as_str().is_empty() {
        parts.push(a);
    }
    if !b.as_str().is_empty() {
        parts.push(b);
    }
    proof {
        reveal_with_fuel(Seq::filter, 3);
        assert(both.drop_last() =~= seq![both[0]]);
        assert(seq![both[0]].drop_last() =~= Seq::<Seq<char>>::empty());
        assert(views(parts@) =~= both.filter(|p: Seq<char>| p.len() > 0));
    }
    Err(ExecError::Refresh(join_strings(parts.as_slice(), "\n")))
}

/// The volume a slot's profile must carry for the copy to live in.
pub fn volume(slot: &str) -> (v: NamedVolume)
    ensures
        v.name@ == "nunki-"@ + slot@ + "-proof"@,
        v.at@ == "/work/proof"@,
{
    NamedVolume { name: proof_volume(slot), at: owned("/work/proof") }
}

} // verus!
