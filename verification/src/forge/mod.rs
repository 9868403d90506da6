//! The forge: opening the pull request, and asking what it protects.
//!
//! It talks to the forge with the human's credential, kept beside the
//! accounts at `~/.nunki/forge-token` and never mounted in a container.
//! Without that file a push still happens, and hands over the exact address
//! to open the pull request at by hand. This module holds what every forge
//! means (a repository, a pull request, a protected branch); each adapter
//! holds how that forge is asked. A remote elsewhere is said to be elsewhere
//! and never guessed at.

pub mod github;

use vstd::prelude::*;
use crate::text::{
    chars_of, count_lead, join, join_strings, lead_count, lines, owned, push_str, spec_decimal, decimal,
    string_of, text_lines, trim, trim_span, views,
};

verus! {

/// The credential's file, under `~/.nunki/` and beside the accounts.
pub const TOKEN_FILE: &'static str = "forge-token";

/// What asking the forge can end in, short of an answer.
#[derive(Debug)]
pub enum ForgeError {
    /// The forge answered and said no.
    Refused { status: u16, message: String },
    /// The forge could not be reached.
    Unreachable(String),
    /// The forge answered something that cannot be read.
    Unreadable(String),
}

/// What a forge error says.
pub open spec fn forge_error_message(e: ForgeError) -> Seq<char> {
    match e {
        ForgeError::Refused { status, message } => "the forge refused ("@ + spec_decimal(status as nat) + "): "@ + message@,
        ForgeError::Unreachable(why) => "the forge could not be reached: "@ + why@,
        ForgeError::Unreadable(why) => "the forge answered something nunki cannot read: "@ + why@,
    }
}

impl ForgeError {
    /// What the error says, in words a human acts on.
    pub fn message(&self) -> (r: String)
        ensures
            r@ == forge_error_message(*self),
    {
        match self {
            ForgeError::Refused { status, message } => {
                let mut m = owned("the forge refused (");
                push_str(&mut m, decimal(*status as u64).as_str());
                push_str(&mut m, "): ");
                push_str(&mut m, message.as_str());
                m
            },
            ForgeError::Unreachable(why) => {
                let mut m = owned("the forge could not be reached: ");
                push_str(&mut m, why.as_str());
                m
            },
            ForgeError::Unreadable(why) => {
                let mut m = owned("the forge answered something nunki cannot read: ");
                push_str(&mut m, why.as_str());
                m
            },
        }
    }
}

/// A repository on a forge, as every forge names one: an owner and a name.
#[derive(Debug, Clone, PartialEq, Eq)]
pub struct Repo {
    pub owner: String,
    pub name: String,
}

impl Repo {
    /// The repository a remote URL points at, if it is on GitHub: SSH
    /// (`git@github.com:o/r.git`) and HTTPS alike.
    pub fn of_remote(remote: &str) -> (r: Option<Repo>)
        ensures
            match (r, github::spec_repo_of_remote(remote@)) {
                (Some(a), Some((o, n))) => a.owner@ == o && a.name@ == n,
                (None, None) => true,
                _ => false,
            },
    {
        github::repo_of_remote(remote)
    }
}

/// What is asked of the forge.
#[derive(Debug, Clone, PartialEq, Eq)]
pub struct PullRequest {
    pub title: String,
    pub body: String,
    pub head: String,
    pub base: String,
}

/// The first line from `i` on that says anything, or the number of lines.
pub open spec fn first_said(ls: Seq<Seq<char>>, i: int) -> int
    decreases ls.len() - i,
{
    if i < 0 || i >= ls.len() {
        ls.len() as int
    } else if trim(ls[i]).len() > 0 {
        i
    } else {
        first_said(ls, i + 1)
    }
}

/// A title, its markdown heading's hashes taken off.
pub open spec fn title_of(line: Seq<char>) -> Seq<char> {
    let t = trim(line);
    trim(t.skip(lead_count(t, '#') as int))
}

/// Title and body of `PR.md`: the first line that says anything is the
/// title, the rest is the body; nothing when there is no title.
pub open spec fn spec_from_markdown(text: Seq<char>) -> Option<(Seq<char>, Seq<char>)> {
    let ls = lines(text);
    let i = first_said(ls, 0);
    if i >= ls.len() || title_of(ls[i]).len() == 0 {
        None
    } else {
        Some((title_of(ls[i]), trim(join(ls.skip(i + 1), "\n"@))))
    }
}

fn title_from(line: &str) -> (r: String)
    ensures
        r@ == title_of(line@),
{
    let v = chars_of(line);
    let (a, b) = trim_span(v.as_slice(), 0, v.len());
    assert(v@.subrange(0, v@.len() as int) =~= line@);
    let h = count_lead(v.as_slice(), a, b, '#');
    let (c, d) = trim_span(v.as_slice(), a + h, b);
    let ghost t = trim(line@);
    assert(v@.subrange(a as int, b as int) == t);
    assert(v@.subrange(a + h, b as int) =~= t.skip(h as int));
    string_of(v.as_slice(), c, d)
}

impl PullRequest {
    /// Title and body from the mission's `PR.md`: the first line that says
    /// anything is the title, a markdown heading's hashes taken off, and the
    /// rest is the body. `None` when the file says nothing: a pull request
    /// titled with nothing is not one.
    pub fn from_markdown(text: &str, head: &str, base: &str) -> (r: Option<PullRequest>)
        ensures
            match (r, spec_from_markdown(text@)) {
                (Some(pr), Some((t, b))) => pr.title@ == t && pr.body@ == b && pr.head@ == head@
                    && pr.base@ == base@,
                (None, None) => true,
                _ => false,
            },
    {
        let ls = text_lines(text);
        let ghost lv = views(ls@);
        let mut i: usize = 0;
        while i < ls.len() && crate::text::trimmed(ls[i].as_str()).as_str().unicode_len() == 0
            invariant
                i <= ls@.len(),
                lv == views(ls@),
                lv == lines(text@),
                first_said(lv, 0) == first_said(lv, i as int),
            decreases ls@.len() - i,
        {
            i += 1;
        }
        if i == ls.len() {
            return None;
        }
        let title = title_from(ls[i].as_str());
        if title.as_str().unicode_len() == 0 {
            return None;
        }
        let mut after: Vec<String> = Vec::new();
        let mut j = i + 1;
        while j < ls.len()
            invariant
                i < j <= ls@.len(),
                lv == views(ls@),
                views(after@) == lv.subrange(i + 1, j as int),
            decreases ls@.len() - j,
        {
            let ghost before = views(after@);
            after.push(owned(ls[j].as_str()));
            assert(views(after@) =~= before.push(lv[j as int]));
            j += 1;
            assert(views(after@) =~= lv.subrange(i + 1, j as int));
        }
        assert(lv.subrange(i + 1, j as int) =~= lv.skip(i + 1));
        let rest = join_strings(after.as_slice(), "\n");
        Some(PullRequest { title, body: crate::text::trimmed(rest.as_str()), head: owned(head), base: owned(base) })
    }
}

/// What the forge did.
#[derive(Debug, Clone, PartialEq, Eq)]
pub enum Opened {
    Created(String),
    /// A pull request for this branch was already open: the one that exists
    /// is the answer, not a failure.
    AlreadyOpen(String),
}

impl Opened {
    /// Where the pull request is, however it came to be.
    pub fn url(&self) -> (r: &str)
        ensures
            r@ == match self {
                Opened::Created(u) => u@,
                Opened::AlreadyOpen(u) => u@,
            },
    {
        match self {
            Opened::Created(u) => u.as_str(),
            Opened::AlreadyOpen(u) => u.as_str(),
        }
    }
}

/// What the forge says about one branch.
#[derive(Debug, Clone, Copy, PartialEq, Eq)]
pub enum Protection {
    Protected,
    Unprotected,
    /// The forge has no such branch, so there is nothing to protect yet.
    NoSuchBranch,
}

/// The forge a remote is on, and the repository it points at; nothing for a
/// remote on a forge there is no adapter for.
pub fn of_remote(remote: &str) -> (r: Option<(github::GitHub, Repo)>)
    ensures
        match (r, github::spec_repo_of_remote(remote@)) {
            (Some((f, a)), Some((o, n))) => f.api@ == github::API@ && a.owner@ == o && a.name@ == n,
            (None, None) => true,
            _ => false,
        },
{
    of_remote_at(remote, github::API)
}

/// The same, against a given API address: how a test points the client at a
/// server it controls.
pub fn of_remote_at(remote: &str, api: &str) -> (r: Option<(github::GitHub, Repo)>)
    ensures
        match (r, github::spec_repo_of_remote(remote@)) {
            (Some((f, a)), Some((o, n))) => f.api@ == api@ && a.owner@ == o && a.name@ == n,
            (None, None) => true,
            _ => false,
        },
{
    match github::repo_of_remote(remote) {
        Some(repo) => Some((github::GitHub::at(api), repo)),
        None => None,
    }
}

/// The human's token, once the file is read: its text trimmed, and nothing
/// when that is empty.
pub fn token_of(text: &str) -> (r: Option<String>)
    ensures
        match r {
            Some(t) => t@ == trim(text@) && t@.len() > 0,
            None => trim(text@).len() == 0,
        },
{
    let t = crate::text::trimmed(text);
    if t.as_str().unicode_len() == 0 { None } else { Some(t) }
}

} // verus!
