//! GitHub, the one forge adapter there is: the API's address, how a remote
//! URL names a repository, and how its answers are read. The requests
//! themselves are sent by the program around this crate.

use vstd::prelude::*;
use super::{ForgeError, Protection, Repo};
use crate::text::{
    chars_of, contains_text, next_where, owned, push_str, rfind_in, rfind_text, skip_chars, str_contains,
    string_of, strip_suffixes, strip_suffixes_len, trail_count, count_trail, trim, trim_span, trimmed,
};

verus! {

/// GitHub's API, the only host the human's credential is ever sent to.
pub const API: &'static str = "https://api.github.com";

/// The host a remote must name for this adapter to answer for it.
pub const HOST: &'static str = "github.com";

/// GitHub, asked at `api`.
#[derive(Debug, Clone, PartialEq, Eq)]
pub struct GitHub {
    pub api: String,
}

impl GitHub {
    /// The adapter, asking the API at `api`.
    pub fn at(api: &str) -> (r: GitHub)
        ensures
            r.api@ == api@,
    {
        GitHub { api: owned(api) }
    }

    /// The forge's name, for a message a human reads.
    pub fn name(&self) -> (r: &'static str)
        ensures
            r@ == "GitHub"@,
    {
        "GitHub"
    }

    /// The address a human opens to write the pull request themselves.
    pub fn compare(&self, repo: &Repo, base: &str, head: &str) -> (r: String)
        ensures
            r@ == "https://"@ + HOST@ + "/"@ + repo.owner@ + "/"@ + repo.name@ + "/compare/"@ + base@ + "..."@
                + head@ + "?expand=1"@,
    {
        let mut r = owned("https://");
        push_str(&mut r, HOST);
        push_str(&mut r, "/");
        push_str(&mut r, repo.owner.as_str());
        push_str(&mut r, "/");
        push_str(&mut r, repo.name.as_str());
        push_str(&mut r, "/compare/");
        push_str(&mut r, base);
        push_str(&mut r, "...");
        push_str(&mut r, head);
        push_str(&mut r, "?expand=1");
        r
    }
}

/// Neither a colon nor a slash.
pub open spec fn not_separator() -> spec_fn(char) -> bool {
    |c: char| c != ':' && c != '/'
}

/// A slash.
pub open spec fn is_slash() -> spec_fn(char) -> bool {
    |c: char| c == '/'
}

/// What follows the host in a remote, once the URL's dressing is off.
pub open spec fn remote_path(remote: Seq<char>) -> Option<Seq<char>> {
    let t0 = trim(remote);
    let t1 = t0.take(t0.len() - trail_count(t0, '/'));
    let t2 = strip_suffixes(t1, ".git"@);
    match rfind_text(t2, HOST@) {
        None => None,
        Some(k) => {
            let rest = t2.skip(k + HOST@.len());
            Some(rest.skip(next_where(rest, 0, not_separator())))
        },
    }
}

/// The owner and the name a remote URL points at, if it is on GitHub.
pub open spec fn spec_repo_of_remote(remote: Seq<char>) -> Option<(Seq<char>, Seq<char>)> {
    match remote_path(remote) {
        None => None,
        Some(path) => {
            let s = next_where(path, 0, is_slash());
            if s >= path.len() {
                None
            } else {
                let owner = path.take(s);
                let name = path.skip(s + 1);
                if owner.len() == 0 || name.len() == 0 || contains_text(name, "/"@) {
                    None
                } else {
                    Some((owner, name))
                }
            }
        },
    }
}

proof fn lemma_next_where_is(s: Seq<char>, p: spec_fn(char) -> bool, r: int)
    requires
        0 <= r <= s.len(),
        forall|k: int| 0 <= k < r ==> !p(#[trigger] s[k]),
        r < s.len() ==> p(s[r]),
    ensures
        next_where(s, 0, p) == r,
{
    crate::text::lemma_next_where(s, 0, p);
    let w = next_where(s, 0, p);
    if w < r {
        assert(!p(s[w]));
    } else if w > r {
        assert(!p(s[r]));
    }
}

fn path_of(remote: &str) -> (r: Option<Vec<char>>)
    ensures
        match (r, remote_path(remote@)) {
            (Some(a), Some(b)) => a@ == b,
            (None, None) => true,
            _ => false,
        },
{
    let v = chars_of(remote);
    let (a, b) = trim_span(v.as_slice(), 0, v.len());
    assert(v@.subrange(0, v@.len() as int) =~= remote@);
    let t0 = crate::text::slice_to_vec(v.as_slice(), a, b);
    let slashes = count_trail(t0.as_slice(), '/');
    let t1 = crate::text::slice_to_vec(t0.as_slice(), 0, t0.len() - slashes);
    assert(t0@.subrange(0, t0@.len() - slashes) =~= t0@.take(t0@.len() - slashes));
    let git = chars_of(".git");
    let n2 = strip_suffixes_len(t1.as_slice(), git.as_slice());
    let t2 = crate::text::slice_to_vec(t1.as_slice(), 0, n2);
    assert(t1@.subrange(0, n2 as int) =~= t1@.take(n2 as int));
    let host = chars_of(HOST);
    let k = match rfind_in(t2.as_slice(), host.as_slice()) {
        Some(k) => k,
        None => return None,
    };
    let from = k + host.len();
    let seps = chars_of(":/");
    proof {
        reveal_strlit(":/");
    }
    let j = skip_chars(t2.as_slice(), from, t2.len(), seps.as_slice());
    proof {
        let rest = t2@.skip(from as int);
        assert forall|m: int| 0 <= m < j - from implies !not_separator()(#[trigger] rest[m]) by {
            assert(rest[m] == t2@[from + m]);
            assert(seps@.contains(t2@[from + m]));
            let w = choose|w: int| 0 <= w < seps@.len() && seps@[w] == t2@[from + m];
            assert(w == 0 || w == 1);
        }
        if j < t2@.len() {
            assert(rest[j - from] == t2@[j as int]);
            if !not_separator()(t2@[j as int]) {
                assert(seps@[0] == ':' && seps@[1] == '/');
                assert(seps@.contains(t2@[j as int]));
            }
        }
        lemma_next_where_is(rest, not_separator(), j - from);
        assert(rest.skip(j - from) =~= t2@.subrange(j as int, t2@.len() as int));
    }
    Some(crate::text::slice_to_vec(t2.as_slice(), j, t2.len()))
}

/// The repository a remote URL points at, if it is on GitHub: SSH
/// (`git@github.com:o/r.git`) and HTTPS alike.
pub fn repo_of_remote(remote: &str) -> (r: Option<Repo>)
    ensures
        match (r, spec_repo_of_remote(remote@)) {
            (Some(a), Some((o, n))) => a.owner@ == o && a.name@ == n,
            (None, None) => true,
            _ => false,
        },
{
    let path = match path_of(remote) {
        Some(p) => p,
        None => return None,
    };
    let mut s: usize = 0;
    while s < path.len() && path[s] != '/'
        invariant
            s <= path@.len(),
            forall|k: int| 0 <= k < s ==> path@[k] != '/',
        decreases path@.len() - s,
    {
        s += 1;
    }
    proof {
        lemma_next_where_is(path@, is_slash(), s as int);
    }
    if s == path.len() {
        return None;
    }
    let owner = string_of(path.as_slice(), 0, s);
    let name = string_of(path.as_slice(), s + 1, path.len());
    assert(path@.subrange(0, s as int) =~= path@.take(s as int));
    assert(path@.subrange(s + 1, path@.len() as int) =~= path@.skip(s + 1));
    proof {
        reveal_strlit("/");
    }
    if s == 0 || s + 1 == path.len() || str_contains(name.as_str(), "/") {
        return None;
    }
    Some(Repo { owner, name })
}

/// What a refusal says: the forge's own message, or that it gave none, with
/// its list of errors when there is one; a body that is not the forge's
/// usual shape is quoted, its first three hundred characters.
pub open spec fn refusal_message(parsed: Option<(Option<Seq<char>>, Option<Seq<char>>)>, text: Seq<char>) -> Seq<char> {
    match parsed {
        Some((message, errors)) => {
            let m = match message { Some(m) => m, None => "no reason given"@ };
            match errors { Some(e) => m + " — "@ + e, None => m }
        },
        None => if trim(text).len() == 0 {
            "no reason given"@
        } else {
            trim(text).take(if trim(text).len() < 300 { trim(text).len() as int } else { 300 })
        },
    }
}

/// A refusal, as the forge said it. `parsed` is the body read as the
/// forge's usual shape: its message if it gave one, and its errors, written
/// out, when the list is not empty.
pub fn refused(status: u16, parsed: Option<(Option<String>, Option<String>)>, text: &str) -> (r: ForgeError)
    ensures
        r matches ForgeError::Refused { status: s, message } && s == status && message@ == refusal_message(
            match parsed {
                Some((m, e)) => Some((crate::text::opt_view(m), crate::text::opt_view(e))),
                None => None,
            },
            text@,
        ),
{
    let message = match parsed {
        Some((m, e)) => {
            let mut said = match m {
                Some(m) => m,
                None => owned("no reason given"),
            };
            match e {
                Some(e) => {
                    push_str(&mut said, " — ");
                    push_str(&mut said, e.as_str());
                },
                None => {},
            }
            said
        },
        None => {
            let v = chars_of(text);
            let (a, b) = trim_span(v.as_slice(), 0, v.len());
            assert(v@.subrange(0, v@.len() as int) =~= text@);
            if a == b {
                owned("no reason given")
            } else {
                let end = if b - a < 300 { b } else { a + 300 };
                assert(v@.subrange(a as int, end as int) =~= trim(text@).take((end - a) as int));
                string_of(v.as_slice(), a, end)
            }
        },
    };
    ForgeError::Refused { status, message }
}

/// What the forge said about a branch: 200 with whether it is protected
/// (`protected`, the body read, or why it could not be), 404 saying the
/// branch is not found, or a refusal. A repository the token cannot see
/// answers 404 too, with "Not Found": that is the forge declining to say,
/// and it is a refusal.
pub fn protection_of(
    status: u16,
    text: &str,
    protected: Result<bool, String>,
    parsed: Option<(Option<String>, Option<String>)>,
) -> (r: Result<Protection, ForgeError>)
    ensures
        status == 200 ==> match protected {
            Ok(p) => r == Ok::<Protection, ForgeError>(if p { Protection::Protected } else { Protection::Unprotected }),
            Err(why) => r matches Err(ForgeError::Unreadable(w)) && w@ == why@,
        },
        status == 404 && contains_text(text@, "Branch not found"@) ==> r == Ok::<Protection, ForgeError>(Protection::NoSuchBranch),
        status != 200 && !(status == 404 && contains_text(text@, "Branch not found"@)) ==> (r matches Err(
            ForgeError::Refused { status: s, .. },
        ) && s == status),
{
    if status == 200 {
        return match protected {
            Ok(p) => Ok(if p { Protection::Protected } else { Protection::Unprotected }),
            Err(why) => Err(ForgeError::Unreadable(why)),
        };
    }
    if status == 404 && str_contains(text, "Branch not found") {
        return Ok(Protection::NoSuchBranch);
    }
    Err(refused(status, parsed, text))
}

} // verus!
