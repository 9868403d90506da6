//! Fetching a mission's commits, and pushing them.
//!
//! The only verb that touches the forge in write, and the only place a
//! mission's commits leave their slot. Everything before it can be
//! autonomous because this one is not: the push happens on an explicit human
//! argument. A verdict is worth one commit, and the coder's verdict stays
//! valid as long as everything added after it is the integrator's wiring,
//! judged by the allowlist its own gate used. Running git and asking the
//! forge are the program's part; every refusal is decided here.

use vstd::prelude::*;
use crate::forge::{forge_error_message, ForgeError, Opened, PullRequest, Repo};
use crate::gate::{compiled, patterns_of, unmatched, GateError};
use crate::harness::Role;
use crate::mission::{Header, Integration, Verdict};
use crate::mission::flow::Stage;
use crate::text::{
    chars_of, join, join_path, join_strings, next_where, owned, path_join, push_str, rfind_in, rfind_text, skip_chars,
    str_eq, string_of, strip_suffixes, strip_suffixes_len, views,
};

verus! {

/// Why a push or a fetch refused.
#[derive(Debug)]
pub enum PushError {
    NotStarted(String),
    NotVerified { mission: String, stage: Stage },
    NotAuthorised(String),
    VerdictElsewhere { role: Role, head: String, on: String },
    NoVerdict { role: Role },
    Red { role: Role, verdict: Verdict },
    NotLifted(String),
    NotOnlyWiring { coder: String, commits: usize, paths: String },
    NotAnAncestor(String, String),
    FetchingIntoCurrent(String),
    NoRemote(String),
    Git(crate::git::GitError),
    Gate(GateError),
    Slot(crate::slot::SlotError),
}

/// The remote a mission is pushed to. One name, because a project with two
/// remotes has a decision to make that the engine must not make for it.
pub const REMOTE: &'static str = "origin";

/// What a fetch did.
#[derive(Debug, Clone, PartialEq, Eq)]
pub struct Fetched {
    pub branch: String,
    /// Where the branch is in the repository now.
    pub head: String,
    /// Where it was, if it was there at all.
    pub was: Option<String>,
}

/// Where the pull request stands once the branch is on the forge. Not a
/// `Result`: by the time it is decided the push has already happened, and a
/// forge that refused is reported next to a push that succeeded.
#[derive(Debug, Clone, PartialEq, Eq)]
pub enum PullRequestState {
    Opened(Opened),
    /// Left for the human to open, and why, with the address when it can be
    /// worked out.
    ByHand { compare: Option<String>, why: String },
}

/// What a push did, for the caller to print.
#[derive(Debug, Clone, PartialEq, Eq)]
pub struct Pushed {
    pub branch: String,
    pub head: String,
    pub remote: String,
    pub pull_request: PullRequestState,
}

/// A role's conclusion, as the state keeps it: the commit it concluded on,
/// and its verdict (the coder concludes without one).
#[derive(Debug, Clone, PartialEq, Eq)]
pub struct Concluded {
    pub head: String,
    pub verdict: Option<Verdict>,
}

/// Git refuses to fetch into the branch that is checked out, and says so in
/// a message about refs; said here instead, about the repository.
pub fn fetch_refusal(current: &str, branch: &str) -> (r: Result<(), PushError>)
    ensures
        current@ == branch@ ==> (r matches Err(PushError::FetchingIntoCurrent(b)) && b@ == branch@),
        current@ != branch@ ==> r is Ok,
{
    if str_eq(current, branch) {
        Err(PushError::FetchingIntoCurrent(owned(branch)))
    } else {
        Ok(())
    }
}

/// What must hold before anything is pushed: the human said so, the mission
/// has started, and it is verified. There is no flag to push past this.
pub fn may_push(id: &str, authorised: bool, stage: Option<Stage>) -> (r: Result<(), PushError>)
    ensures
        !authorised ==> (r matches Err(PushError::NotAuthorised(m)) && m@ == id@),
        authorised && stage is None ==> (r matches Err(PushError::NotStarted(m)) && m@ == id@),
        authorised && (stage matches Some(s) && !(s is Verified)) ==> (r matches Err(PushError::NotVerified { mission, stage: s2 })
            && mission@ == id@ && Some(s2) == stage),
        authorised && (stage matches Some(s) && s is Verified) ==> r is Ok,
{
    if !authorised {
        return Err(PushError::NotAuthorised(owned(id)));
    }
    match stage {
        None => Err(PushError::NotStarted(owned(id))),
        Some(Stage::Verified) => Ok(()),
        Some(s) => Err(PushError::NotVerified { mission: owned(id), stage: s }),
    }
}

/// A verdict concluded on this commit, or the refusal naming where it was.
pub fn on_this_commit(role: Role, concluded: &Concluded, head: &str) -> (r: Result<(), PushError>)
    ensures
        concluded.head@ == head@ ==> r is Ok,
        concluded.head@ != head@ ==> (r matches Err(PushError::VerdictElsewhere { role: r2, head: h, on })
            && r2 == role && h@ == head@ && on@ == concluded.head@),
{
    if str_eq(concluded.head.as_str(), head) {
        Ok(())
    } else {
        Err(PushError::VerdictElsewhere { role, head: owned(head), on: owned(concluded.head.as_str()) })
    }
}

/// A green verdict, or the refusal: nothing red is ever pushed.
pub fn green(role: Role, verdict: Option<Verdict>) -> (r: Result<(), PushError>)
    ensures
        match verdict {
            Some(v) => if v == Verdict::Integrated || v == Verdict::Clear {
                r is Ok
            } else {
                r matches Err(PushError::Red { role: r2, verdict: v2 }) && r2 == role && v2 == v
            },
            None => r matches Err(PushError::NoVerdict { role: r2 }) && r2 == role,
        },
{
    match verdict {
        Some(v) => if v.is_green() { Ok(()) } else { Err(PushError::Red { role, verdict: v }) },
        None => Err(PushError::NoVerdict { role }),
    }
}

/// What the verdicts say, in the order a human would ask: the integrator's
/// on this commit and green when the mission declares one; the security
/// agent's on this commit, and green or lifted by a human on this commit
/// (`lifted`); then the coder's, whose commit is returned for the wiring
/// rule to judge what came after it.
pub fn verdicts_hold(
    header: &Header,
    head: &str,
    integrator: &Option<Concluded>,
    security: &Option<Concluded>,
    lifted: bool,
    coder: &Option<Concluded>,
) -> (r: Result<String, PushError>)
    ensures
        r is Ok ==> coder is Some,
        r matches Ok(c) ==> c@ == coder->0.head@,
        r is Ok ==> (header.integration is Services ==> (integrator matches Some(i) && i.head@ == head@
            && (i.verdict == Some(Verdict::Integrated) || i.verdict == Some(Verdict::Clear)))),
        r is Ok ==> (header.security == crate::mission::Security::Agent ==> (security matches Some(s) && s.head@ == head@
            && (s.verdict == Some(Verdict::Findings) ==> lifted)
            && (s.verdict != Some(Verdict::Findings) ==> (s.verdict == Some(Verdict::Integrated) || s.verdict == Some(Verdict::Clear))))),
        (header.integration is Services ==> (integrator matches Some(i) && i.head@ == head@
            && (i.verdict == Some(Verdict::Integrated) || i.verdict == Some(Verdict::Clear))))
        && (header.security == crate::mission::Security::Agent ==> (security matches Some(s) && s.head@ == head@
            && (s.verdict == Some(Verdict::Findings) ==> lifted)
            && (s.verdict != Some(Verdict::Findings) ==> (s.verdict == Some(Verdict::Integrated) || s.verdict == Some(Verdict::Clear)))))
        && coder is Some ==> r is Ok,
{
    if header.has_integration() {
        let concluded = match integrator {
            Some(c) => c,
            None => return Err(PushError::NoVerdict { role: Role::Integrator }),
        };
        match on_this_commit(Role::Integrator, concluded, head) {
            Ok(()) => {},
            Err(e) => return Err(e),
        }
        match green(Role::Integrator, concluded.verdict) {
            Ok(()) => {},
            Err(e) => return Err(e),
        }
    }
    if header.has_security_agent() {
        let concluded = match security {
            Some(c) => c,
            None => return Err(PushError::NoVerdict { role: Role::Security }),
        };
        match on_this_commit(Role::Security, concluded, head) {
            Ok(()) => {},
            Err(e) => return Err(e),
        }
        if concluded.verdict == Some(Verdict::Findings) {
            if !lifted {
                return Err(PushError::NotLifted(owned(head)));
            }
        } else {
            match green(Role::Security, concluded.verdict) {
                Ok(()) => {},
                Err(e) => return Err(e),
            }
        }
    }
    match coder {
        Some(c) => Ok(owned(c.head.as_str())),
        None => Err(PushError::NoVerdict { role: Role::Coder }),
    }
}

/// The wiring the integrator may commit: none when the mission declares no
/// integration, since then nothing had the right to commit after the coder.
pub open spec fn wiring_of(i: Integration) -> Seq<Seq<char>> {
    match i {
        Integration::Services { wiring, .. } => views(wiring@),
        Integration::Declined { .. } => Seq::empty(),
    }
}

/// Everything added after the coder's commit must be the integrator's
/// wiring, judged by the very allowlist its gate used. `is_ancestor` says
/// whether the coder's commit is an ancestor of `head`; `touched` is what
/// changed since it, and `commits` how many commits that is.
pub fn only_wiring_since(
    coder: &str,
    head: &str,
    is_ancestor: bool,
    touched: &[String],
    integration: &Integration,
    commits: usize,
) -> (r: Result<(), PushError>)
    ensures
        coder@ == head@ ==> r is Ok,
        coder@ != head@ && !is_ancestor ==> (r matches Err(PushError::NotAnAncestor(c, h)) && c@ == coder@ && h@ == head@),
        coder@ != head@ && is_ancestor && crate::gate::compiles(wiring_of(*integration)) ==> ({
            let outside = unmatched(patterns_of(wiring_of(*integration)), views(touched@));
            &&& outside.len() == 0 ==> r is Ok
            &&& outside.len() > 0 ==> (r matches Err(PushError::NotOnlyWiring { coder: c, commits: n, paths })
                && c@ == coder@ && n == commits
                && paths@ == join(outside.take(if outside.len() < 10 { outside.len() as int } else { 10 }), ", "@))
        }),
        coder@ != head@ && is_ancestor && !crate::gate::compiles(wiring_of(*integration)) ==> r matches Err(PushError::Gate(_)),
{
    if str_eq(coder, head) {
        return Ok(());
    }
    if !is_ancestor {
        return Err(PushError::NotAnAncestor(owned(coder), owned(head)));
    }
    let empty: Vec<String> = Vec::new();
    let wiring: &Vec<String> = match integration {
        Integration::Services { wiring, .. } => wiring,
        Integration::Declined { .. } => &empty,
    };
    assert(views(wiring@) == wiring_of(*integration)) by {
        if integration is Declined {
            assert(views(empty@) =~= Seq::<Seq<char>>::empty());
        }
    }
    let allowed = match crate::gate::compile(wiring.as_slice()) {
        Ok(s) => s,
        Err(e) => return Err(PushError::Gate(e)),
    };
    let outside = crate::gate::outside_of(&allowed, touched);
    proof {
        crate::gate::lemma_unmatched_by(allowed, patterns_of(wiring_of(*integration)), views(touched@));
    }
    if outside.len() == 0 {
        return Ok(());
    }
    let n = if outside.len() < 10 { outside.len() } else { 10 };
    let mut first: Vec<String> = Vec::new();
    let mut i: usize = 0;
    while i < n
        invariant
            n <= outside@.len(),
            i <= n,
            views(first@) == views(outside@).take(i as int),
        decreases n - i,
    {
        let ghost before = views(first@);
        first.push(owned(outside[i].as_str()));
        assert(views(first@) =~= before.push(outside@[i as int]@));
        i += 1;
        assert(views(first@) =~= views(outside@).take(i as int));
    }
    Err(PushError::NotOnlyWiring { coder: owned(coder), commits, paths: join_strings(first.as_slice(), ", ") })
}

/// The repository path a remote names on GitHub, once `.git` is off its
/// end: what follows the last `github.com`, its leading `:` and `/` off.
pub open spec fn compare_path(remote: Seq<char>) -> Option<Seq<char>> {
    let t = strip_suffixes(remote, ".git"@);
    match rfind_text(t, "github.com"@) {
        None => None,
        Some(k) => {
            let rest = t.skip(k + 10);
            let p = rest.skip(next_where(rest, 0, crate::forge::github::not_separator()));
            if p.len() == 0 { None } else { Some(p) }
        },
    }
}

/// The address a human opens the pull request at, worked out from the
/// remote's own URL: used whenever the engine does not open it itself.
pub open spec fn spec_pull_request_url(remote: Seq<char>, base: Seq<char>, branch: Seq<char>) -> Option<Seq<char>> {
    match compare_path(remote) {
        None => None,
        Some(p) => Some("https://github.com/"@ + p + "/compare/"@ + base + "..."@ + branch + "?expand=1"@),
    }
}

/// The address a human opens the pull request at, from the remote's URL.
pub fn pull_request_url(remote: &str, base: &str, branch: &str) -> (r: Option<String>)
    ensures
        match (r, spec_pull_request_url(remote@, base@, branch@)) {
            (Some(a), Some(b)) => a@ == b,
            (None, None) => true,
            _ => false,
        },
{
    let v = chars_of(remote);
    let git = chars_of(".git");
    let n = strip_suffixes_len(v.as_slice(), git.as_slice());
    let t = crate::text::slice_to_vec(v.as_slice(), 0, n);
    assert(v@.subrange(0, n as int) =~= v@.take(n as int));
    let host = chars_of("github.com");
    proof {
        reveal_strlit("github.com");
    }
    let k = match rfind_in(t.as_slice(), host.as_slice()) {
        Some(k) => k,
        None => return None,
    };
    let from = k + host.len();
    let seps = chars_of(":/");
    proof {
        reveal_strlit(":/");
    }
    let j = skip_chars(t.as_slice(), from, t.len(), seps.as_slice());
    proof {
        let rest = t@.skip(from as int);
        assert forall|m: int| 0 <= m < j - from implies !crate::forge::github::not_separator()(#[trigger] rest[m]) by {
            assert(rest[m] == t@[from + m]);
            assert(seps@.contains(t@[from + m]));
            let w = choose|w: int| 0 <= w < seps@.len() && seps@[w] == t@[from + m];
            assert(w == 0 || w == 1);
        }
        if j < t@.len() {
            assert(rest[j - from] == t@[j as int]);
            if !crate::forge::github::not_separator()(t@[j as int]) {
                assert(seps@[0] == ':' && seps@[1] == '/');
                assert(seps@.contains(t@[j as int]));
            }
        }
        lemma_next_where_at(rest, j - from);
        assert(rest.skip(j - from) =~= t@.subrange(j as int, t@.len() as int));
    }
    if j == t.len() {
        return None;
    }
    let mut r = owned("https://github.com/");
    push_str(&mut r, string_of(t.as_slice(), j, t.len()).as_str());
    push_str(&mut r, "/compare/");
    push_str(&mut r, base);
    push_str(&mut r, "...");
    push_str(&mut r, branch);
    push_str(&mut r, "?expand=1");
    Some(r)
}

proof fn lemma_next_where_at(s: Seq<char>, r: int)
    requires
        0 <= r <= s.len(),
        forall|k: int| 0 <= k < r ==> !crate::forge::github::not_separator()(#[trigger] s[k]),
        r < s.len() ==> crate::forge::github::not_separator()(s[r]),
    ensures
        next_where(s, 0, crate::forge::github::not_separator()) == r,
{
    crate::text::lemma_next_where(s, 0, crate::forge::github::not_separator());
    let w = next_where(s, 0, crate::forge::github::not_separator());
    if w < r {
        assert(!crate::forge::github::not_separator()(s[w]));
    } else if w > r {
        assert(!crate::forge::github::not_separator()(s[r]));
    }
}

/// What is sent to the forge, or why the forge is never asked: a remote not
/// on GitHub, no credential (`token`, read from `token_file`), or a `PR.md`
/// (read from `pr_file`) that says nothing a pull request could be titled
/// with. A left-by-hand answer carries the address when there is one.
pub fn pull_request_plan(
    remote: &str,
    base: &str,
    branch: &str,
    token: Option<String>,
    token_file: &str,
    pr_text: &str,
    pr_file: &str,
) -> (r: Result<(Repo, String, PullRequest), PullRequestState>)
    ensures
        match crate::forge::github::spec_repo_of_remote(remote@) {
            None => r matches Err(PullRequestState::ByHand { why, .. }) && why@ == "the remote is not on GitHub ("@
                + remote@ + "), and GitHub is the only forge nunki opens pull requests on"@,
            Some((owner, name)) => match token {
                None => r matches Err(PullRequestState::ByHand { why, .. }) && why@ == "no forge credential at "@
                    + token_file@ + " — a GitHub token that can open pull requests on "@ + owner + "/"@ + name
                    + ", and nunki opens it itself"@,
                Some(t) => match crate::forge::spec_from_markdown(pr_text@) {
                    None => r matches Err(PullRequestState::ByHand { why, .. }) && why@ == pr_file@
                        + " says nothing a pull request could be titled with"@,
                    Some((title, body)) => r matches Ok((repo, tok, pr)) && repo.owner@ == owner && repo.name@ == name
                        && tok@ == t@ && pr.title@ == title && pr.body@ == body && pr.head@ == branch@
                        && pr.base@ == base@,
                },
            },
        },
        r matches Err(PullRequestState::ByHand { compare, .. }) ==> match (compare, spec_pull_request_url(remote@, base@, branch@)) {
            (Some(a), Some(b)) => a@ == b,
            (None, None) => true,
            _ => false,
        },
{
    let repo = match crate::forge::github::repo_of_remote(remote) {
        Some(repo) => repo,
        None => {
            let mut why = owned("the remote is not on GitHub (");
            push_str(&mut why, remote);
            push_str(&mut why, "), and GitHub is the only forge nunki opens pull requests on");
            return Err(PullRequestState::ByHand { compare: pull_request_url(remote, base, branch), why });
        },
    };
    let token = match token {
        Some(t) => t,
        None => {
            let mut why = owned("no forge credential at ");
            push_str(&mut why, token_file);
            push_str(&mut why, " — a GitHub token that can open pull requests on ");
            push_str(&mut why, repo.owner.as_str());
            push_str(&mut why, "/");
            push_str(&mut why, repo.name.as_str());
            push_str(&mut why, ", and nunki opens it itself");
            return Err(PullRequestState::ByHand { compare: pull_request_url(remote, base, branch), why });
        },
    };
    match PullRequest::from_markdown(pr_text, branch, base) {
        Some(pr) => Ok((repo, token, pr)),
        None => {
            let mut why = owned(pr_file);
            push_str(&mut why, " says nothing a pull request could be titled with");
            Err(PullRequestState::ByHand { compare: pull_request_url(remote, base, branch), why })
        },
    }
}

/// Where the pull request stands, once the forge answered.
pub fn after_open(answer: Result<Opened, ForgeError>, remote: &str, base: &str, branch: &str) -> (r: PullRequestState)
    ensures
        match answer {
            Ok(o) => r == PullRequestState::Opened(o),
            Err(e) => r matches PullRequestState::ByHand { compare, why } && why@ == forge_error_message(e)
                && match (compare, spec_pull_request_url(remote@, base@, branch@)) {
                    (Some(a), Some(b)) => a@ == b,
                    (None, None) => true,
                    _ => false,
                },
        },
{
    match answer {
        Ok(o) => PullRequestState::Opened(o),
        Err(e) => PullRequestState::ByHand { compare: pull_request_url(remote, base, branch), why: e.message() },
    }
}

} // verus!
