//! Just enough git. The HQ links no git library: git runs as a subprocess
//! in the program around this crate, and what it printed is read here.

use vstd::prelude::*;
use crate::text::{lines, owned, push_str, text_lines, views};

verus! {

/// What can go wrong asking git.
#[derive(Debug, Clone, PartialEq, Eq)]
pub enum GitError {
    /// git ran and failed: the verb, where, what it said.
    Failed { verb: String, at: String, stderr: String },
    /// git is not on the path.
    Missing(String),
}

/// What a git error says.
pub open spec fn git_error_message(e: GitError) -> Seq<char> {
    match e {
        GitError::Failed { verb, at, stderr } => "git "@ + verb@ + " failed in "@ + at@ + ": "@ + stderr@,
        GitError::Missing(why) => "git is not on the path: "@ + why@,
    }
}

impl GitError {
    /// What the error says.
    pub fn message(&self) -> (r: String)
        ensures
            r@ == git_error_message(*self),
    {
        match self {
            GitError::Failed { verb, at, stderr } => {
                let mut m = crate::text::owned("git ");
                crate::text::push_str(&mut m, verb.as_str());
                crate::text::push_str(&mut m, " failed in ");
                crate::text::push_str(&mut m, at.as_str());
                crate::text::push_str(&mut m, ": ");
                crate::text::push_str(&mut m, stderr.as_str());
                m
            },
            GitError::Missing(why) => {
                let mut m = crate::text::owned("git is not on the path: ");
                crate::text::push_str(&mut m, why.as_str());
                m
            },
        }
    }
}

/// Whether the working tree has anything uncommitted, from what
/// `git status --porcelain` printed, trimmed.
pub fn is_clean(status: &str) -> (b: bool)
    ensures
        b == (status@.len() == 0),
{
    status.is_empty()
}

/// The commits reachable from `HEAD` that another repository does not have:
/// `here` is what `git rev-list HEAD` printed in this one, `there` what
/// `git rev-list --all` printed in the other. This is what makes removing a
/// slot refuse rather than lose work.
pub fn commits_not_in(here: &str, there: &str) -> (r: Vec<String>)
    ensures
        views(r@) == lines(here@).filter(|c: Seq<char>| !lines(there@).contains(c)),
{
    let ours = text_lines(here);
    let theirs = text_lines(there);
    let ghost known = lines(there@);
    let ghost p = |c: Seq<char>| !known.contains(c);
    let mut r: Vec<String> = Vec::new();
    let mut i: usize = 0;
    while i < ours.len()
        invariant
            views(ours@) == lines(here@),
            views(theirs@) == known,
            known == lines(there@),
            p == (|c: Seq<char>| !known.contains(c)),
            i <= ours@.len(),
            views(r@) == lines(here@).subrange(0, i as int).filter(p),
        decreases ours@.len() - i,
    {
        let mut found = false;
        let mut j: usize = 0;
        while j < theirs.len()
            invariant
                views(theirs@) == known,
                i < ours@.len(),
                j <= theirs@.len(),
                found == exists|k: int| 0 <= k < j && #[trigger] known[k] == ours@[i as int]@,
            decreases theirs@.len() - j,
        {
            if !found && crate::text::str_eq(theirs[j].as_str(), ours[i].as_str()) {
                found = true;
                assert(known[j as int] == ours@[i as int]@);
            }
            j += 1;
        }
        proof {
            assert(lines(here@).subrange(0, i + 1).drop_last() =~= lines(here@).subrange(0, i as int));
            assert(lines(here@)[i as int] == ours@[i as int]@);
            reveal_with_fuel(Seq::filter, 2);
            if found {
                let k = choose|k: int| 0 <= k < theirs@.len() && #[trigger] known[k] == ours@[i as int]@;
                assert(known.contains(ours@[i as int]@));
            } else {
                assert(!known.contains(ours@[i as int]@)) by {
                    if known.contains(ours@[i as int]@) {
                        let k = choose|k: int| 0 <= k < known.len() && known[k] == ours@[i as int]@;
                        assert(known[k] == ours@[i as int]@);
                    }
                }
            }
        }
        if !found {
            let ghost before = views(r@);
            r.push(ours[i].clone());
            assert(views(r@) =~= before.push(ours@[i as int]@));
        }
        i += 1;
    }
    assert(lines(here@).subrange(0, i as int) =~= lines(here@));
    r
}

/// The revision that names a branch's commit, whatever `HEAD` is on:
/// `<branch>^{commit}`.
pub fn commit_of(branch: &str) -> (r: String)
    ensures
        r@ == branch@ + "^{commit}"@,
{
    let mut r = owned(branch);
    push_str(&mut r, "^{commit}");
    r
}

} // verus!
