//! `nunki check`: does this project hold what it should?
//!
//! Two rules shape it. It is red when a restriction is not held, not when
//! something is merely absent. And it says what it could not check: a check
//! that quietly skips is worse than no check, because it reads as a pass.
//! Looking at the disk, asking git and asking the forge are the program's
//! part; each check's judgement of what was found is here.

use vstd::prelude::*;
use crate::account::{account_error_message, known_message, spec_setup_command, unknown_message, Accounts, AccountError, INDEX_FILE};
use crate::forge::{forge_error_message, ForgeError, Protection, Repo};
use crate::human::{Human, Source};
use crate::perimeter::{perimeter_error_message, Perimeter, PerimeterError};
use crate::text::{
    debug_quoted, decimal, has_prefix, join, join_path, join_strings, lowercase, octal, opt_view, owned, path_join,
    path_within, push_str, quoted, spec_decimal, spec_octal, str_contains, str_eq, str_starts_with, trim, views,
};

verus! {

/// What one check found.
#[derive(Debug, Clone, PartialEq, Eq)]
pub enum Verdict {
    /// Held, with what was found.
    Green(String),
    /// Not held. The text says what to do about it.
    Red(String),
    /// Could not be established, and why. Never counted as a pass.
    NotChecked(String),
}

/// One check and what it found.
#[derive(Debug, Clone, PartialEq, Eq)]
pub struct Check {
    pub what: String,
    pub verdict: Verdict,
}

/// Every check, in the order they ran.
#[derive(Debug, Clone, PartialEq, Eq)]
pub struct Report {
    pub checks: Vec<Check>,
}

impl Default for Report {
    fn default() -> (r: Report)
        ensures
            r.checks@.len() == 0,
    {
        Report { checks: Vec::new() }
    }
}

/// How many checks are red.
pub open spec fn reds(cs: Seq<Check>) -> nat
    decreases cs.len(),
{
    if cs.len() == 0 {
        0
    } else {
        reds(cs.drop_last()) + if cs.last().verdict is Red { 1nat } else { 0nat }
    }
}

/// How many checks could not be made.
pub open spec fn unchecked_count(cs: Seq<Check>) -> nat
    decreases cs.len(),
{
    if cs.len() == 0 {
        0
    } else {
        unchecked_count(cs.drop_last()) + if cs.last().verdict is NotChecked { 1nat } else { 0nat }
    }
}

/// One check, as the report writes it: a mark, what was checked, and the
/// detail under it.
pub open spec fn check_lines(c: Check) -> Seq<char> {
    let (mark, detail) = match c.verdict {
        Verdict::Green(d) => ("ok  "@, d@),
        Verdict::Red(d) => ("RED "@, d@),
        Verdict::NotChecked(d) => ("--  "@, d@),
    };
    mark + c.what@ + "\n      "@ + detail + "\n"@
}

/// The checks, one after the other.
pub open spec fn all_lines(cs: Seq<Check>) -> Seq<char>
    decreases cs.len(),
{
    if cs.len() == 0 { Seq::empty() } else { all_lines(cs.drop_last()) + check_lines(cs.last()) }
}

/// The summary, which never calls an unchecked thing a pass.
pub open spec fn summary(red: nat, unchecked: nat) -> Seq<char> {
    if red == 0 && unchecked == 0 {
        "everything checked is held."@
    } else if red == 0 {
        "everything checked is held; "@ + spec_decimal(unchecked) + " could not be checked."@
    } else if unchecked == 0 {
        spec_decimal(red) + " restriction(s) not held."@
    } else {
        spec_decimal(red) + " restriction(s) not held; "@ + spec_decimal(unchecked) + " could not be checked."@
    }
}

impl Report {
    /// Add one check.
    pub fn add(&mut self, what: String, verdict: Verdict)
        ensures
            final(self).checks@ == old(self).checks@.push(Check { what, verdict }),
    {
        self.checks.push(Check { what, verdict });
    }

    /// Whether any restriction is not held.
    pub fn is_red(&self) -> (b: bool)
        ensures
            b == (reds(self.checks@) > 0),
    {
        self.red_count() > 0
    }

    fn red_count(&self) -> (n: usize)
        ensures
            n == reds(self.checks@),
    {
        let mut n: usize = 0;
        let mut i: usize = 0;
        while i < self.checks.len()
            invariant
                i <= self.checks@.len(),
                n == reds(self.checks@.take(i as int)),
                n <= i,
            decreases self.checks@.len() - i,
        {
            assert(self.checks@.take(i + 1).drop_last() =~= self.checks@.take(i as int));
            match self.checks[i].verdict {
                Verdict::Red(_) => n += 1,
                _ => {},
            }
            i += 1;
        }
        assert(self.checks@.take(i as int) =~= self.checks@);
        n
    }

    /// How many checks could not be made.
    pub fn unchecked(&self) -> (n: usize)
        ensures
            n == unchecked_count(self.checks@),
    {
        let mut n: usize = 0;
        let mut i: usize = 0;
        while i < self.checks.len()
            invariant
                i <= self.checks@.len(),
                n == unchecked_count(self.checks@.take(i as int)),
                n <= i,
            decreases self.checks@.len() - i,
        {
            assert(self.checks@.take(i + 1).drop_last() =~= self.checks@.take(i as int));
            match self.checks[i].verdict {
                Verdict::NotChecked(_) => n += 1,
                _ => {},
            }
            i += 1;
        }
        assert(self.checks@.take(i as int) =~= self.checks@);
        n
    }

    /// One line per check, then a summary that never calls an unchecked
    /// thing a pass.
    pub fn render(&self) -> (r: String)
        ensures
            r@ == all_lines(self.checks@) + "\n"@ + summary(reds(self.checks@), unchecked_count(self.checks@)) + "\n"@,
    {
        let mut out = String::new();
        let mut i: usize = 0;
        while i < self.checks.len()
            invariant
                i <= self.checks@.len(),
                out@ == all_lines(self.checks@.take(i as int)),
            decreases self.checks@.len() - i,
        {
            assert(self.checks@.take(i + 1).drop_last() =~= self.checks@.take(i as int));
            let c = &self.checks[i];
            let (mark, detail) = match &c.verdict {
                Verdict::Green(d) => ("ok  ", d),
                Verdict::Red(d) => ("RED ", d),
                Verdict::NotChecked(d) => ("--  ", d),
            };
            push_str(&mut out, mark);
            push_str(&mut out, c.what.as_str());
            push_str(&mut out, "\n      ");
            push_str(&mut out, detail.as_str());
            push_str(&mut out, "\n");
            i += 1;
        }
        assert(self.checks@.take(i as int) =~= self.checks@);
        let red = self.red_count();
        let unchecked = self.unchecked();
        push_str(&mut out, "\n");
        if red == 0 && unchecked == 0 {
            push_str(&mut out, "everything checked is held.");
        } else if red == 0 {
            push_str(&mut out, "everything checked is held; ");
            push_str(&mut out, decimal(unchecked as u64).as_str());
            push_str(&mut out, " could not be checked.");
        } else if unchecked == 0 {
            push_str(&mut out, decimal(red as u64).as_str());
            push_str(&mut out, " restriction(s) not held.");
        } else {
            push_str(&mut out, decimal(red as u64).as_str());
            push_str(&mut out, " restriction(s) not held; ");
            push_str(&mut out, decimal(unchecked as u64).as_str());
            push_str(&mut out, " could not be checked.");
        }
        push_str(&mut out, "\n");
        out
    }
}

/// The first of `paths[..i]` whose lower case is `key`, if one is.
pub open spec fn first_with(paths: Seq<Seq<char>>, i: int, key: Seq<char>) -> Option<Seq<char>>
    decreases i,
{
    if i <= 0 {
        None
    } else {
        match first_with(paths, i - 1, key) {
            Some(f) => Some(f),
            None => if lowercase(paths[i - 1]) == key { Some(paths[i - 1]) } else { None },
        }
    }
}

/// The clash path `i` makes, if it makes one: an earlier path that differs
/// from it only by case.
pub open spec fn clash_at(paths: Seq<Seq<char>>, i: int) -> Option<Seq<char>> {
    match first_with(paths, i, lowercase(paths[i])) {
        Some(f) => if f != paths[i] { Some(f + " and "@ + paths[i]) } else { None },
        None => None,
    }
}

/// The clashes of `paths[..n]`, in order.
pub open spec fn clashes(paths: Seq<Seq<char>>, n: int) -> Seq<Seq<char>>
    decreases n,
{
    if n <= 0 {
        Seq::empty()
    } else {
        match clash_at(paths, n - 1) {
            Some(c) => clashes(paths, n - 1).push(c),
            None => clashes(paths, n - 1),
        }
    }
}

/// Paths that differ only by case: APFS is case-insensitive by default and
/// ext4 is not, so a pair created on Linux survives a commit and then
/// collides. Each later path is named with the first it clashes with.
pub fn collisions(paths: &[String]) -> (r: Vec<String>)
    ensures
        views(r@) == clashes(views(paths@), paths@.len() as int),
{
    let ghost pv = views(paths@);
    let mut seen: Vec<(String, String)> = Vec::new();
    let mut out: Vec<String> = Vec::new();
    let mut i: usize = 0;
    while i < paths.len()
        invariant
            i <= paths@.len(),
            pv == views(paths@),
            views(out@) == clashes(pv, i as int),
            forall|k: Seq<char>| #[trigger] first_with(pv, i as int, k) == match lookup_seen(seen@, k) {
                Some(f) => Some(f),
                None => None::<Seq<char>>,
            },
        decreases paths@.len() - i,
    {
        let key = crate::text::to_lowercase(paths[i].as_str());
        let found = find_seen(&seen, key.as_str());
        let ghost before = views(out@);
        match found {
            Some(first) => {
                if !str_eq(first.as_str(), paths[i].as_str()) {
                    let mut c = first;
                    push_str(&mut c, " and ");
                    push_str(&mut c, paths[i].as_str());
                    out.push(c);
                    assert(views(out@) =~= before.push(clash_at(pv, i as int)->0));
                }
            },
            None => {
                let ghost old_seen = seen@;
                seen.push((key, crate::text::owned(paths[i].as_str())));
                assert(seen@.drop_last() == old_seen);
            },
        }
        proof {
            assert forall|k: Seq<char>| #[trigger] first_with(pv, i + 1, k) == match lookup_seen(seen@, k) {
                Some(f) => Some(f),
                None => None::<Seq<char>>,
            } by {
                assert(first_with(pv, i + 1, k) == match first_with(pv, i as int, k) {
                    Some(f) => Some(f),
                    None => if lowercase(pv[i as int]) == k { Some(pv[i as int]) } else { None },
                });
            }
        }
        i += 1;
    }
    out
}

/// The path kept for a key, the latest pair with it holding it.
pub open spec fn lookup_seen(seen: Seq<(String, String)>, k: Seq<char>) -> Option<Seq<char>>
    decreases seen.len(),
{
    if seen.len() == 0 {
        None
    } else if seen.last().0@ == k {
        Some(seen.last().1@)
    } else {
        lookup_seen(seen.drop_last(), k)
    }
}

fn find_seen(seen: &Vec<(String, String)>, k: &str) -> (r: Option<String>)
    ensures
        match (r, lookup_seen(seen@, k@)) {
            (Some(a), Some(b)) => a@ == b,
            (None, None) => true,
            _ => false,
        },
{
    let mut i = seen.len();
    assert(seen@.take(i as int) =~= seen@);
    while i > 0
        invariant
            i <= seen@.len(),
            lookup_seen(seen@, k@) == lookup_seen(seen@.take(i as int), k@),
        decreases i,
    {
        assert(seen@.take(i as int).drop_last() =~= seen@.take(i - 1));
        if str_eq(seen[i - 1].0.as_str(), k) {
            return Some(owned(seen[i - 1].1.as_str()));
        }
        i -= 1;
    }
    None
}

/// What the git-repository check finds.
pub open spec fn git_repository_view(dot_git: Seq<char>, exists: bool) -> VerdictView {
    if exists { VerdictView::Green(dot_git + " exists"@) } else { VerdictView::Red("no "@ + dot_git + " — a slot is a clone"@) }
}

/// Whether the project is a git repository: a slot is a clone.
pub fn git_repository(dot_git: &str, exists: bool) -> (r: Check)
    ensures
        r.what@ == "the project is a git repository"@,
        exists ==> (r.verdict matches Verdict::Green(d) && d@ == dot_git@ + " exists"@),
        !exists ==> (r.verdict matches Verdict::Red(d) && d@ == "no "@ + dot_git@ + " — a slot is a clone"@),
        verdict_view(r.verdict) == git_repository_view(dot_git@, exists),
{
    let verdict = if exists {
        let mut d = owned(dot_git);
        push_str(&mut d, " exists");
        Verdict::Green(d)
    } else {
        let mut d = owned("no ");
        push_str(&mut d, dot_git);
        push_str(&mut d, " — a slot is a clone");
        Verdict::Red(d)
    };
    Check { what: owned("the project is a git repository"), verdict }
}

/// The directories a container engine shares by default on macOS.
pub open spec fn shared_on_mac(path: Seq<char>) -> bool {
    has_prefix(path, "/Users/"@) || has_prefix(path, "/Volumes/"@) || has_prefix(path, "/private/"@)
        || has_prefix(path, "/tmp/"@)
}

/// What the mountable-path check finds.
pub open spec fn shareable_view(path: Seq<char>, macos: bool) -> VerdictView {
    if has_prefix(path, "/mnt/"@) {
        VerdictView::Red(path
            + " is on a Windows drive mounted in WSL: slow, and without the permissions git needs from inside a container"@)
    } else if macos && shared_on_mac(path) {
        VerdictView::Green(path + " is under a directory the engine shares"@)
    } else if macos {
        VerdictView::Red(path + " is outside what a container engine shares by default (/Users/, /Volumes/, /private/, /tmp/)"@)
    } else {
        VerdictView::Green(path + " is a native path"@)
    }
}

/// Whether the tree, as the filesystem resolves it, is on a path a
/// container can mount: a Windows drive under WSL is slow and carries no
/// unix permissions, and on macOS only some directories are shared.
pub fn shareable_path(path: &str, macos: bool) -> (r: Check)
    ensures
        r.what@ == "the tree is on a path a container can mount"@,
        has_prefix(path@, "/mnt/"@) ==> (r.verdict matches Verdict::Red(d) && d@ == path@
            + " is on a Windows drive mounted in WSL: slow, and without the permissions git needs from inside a container"@),
        !has_prefix(path@, "/mnt/"@) && macos && shared_on_mac(path@) ==> (r.verdict matches Verdict::Green(d)
            && d@ == path@ + " is under a directory the engine shares"@),
        !has_prefix(path@, "/mnt/"@) && macos && !shared_on_mac(path@) ==> (r.verdict matches Verdict::Red(d)
            && d@ == path@ + " is outside what a container engine shares by default (/Users/, /Volumes/, /private/, /tmp/)"@),
        !has_prefix(path@, "/mnt/"@) && !macos ==> (r.verdict matches Verdict::Green(d) && d@ == path@
            + " is a native path"@),
        verdict_view(r.verdict) == shareable_view(path@, macos),
{
    let verdict = if str_starts_with(path, "/mnt/") {
        let mut d = owned(path);
        push_str(&mut d, " is on a Windows drive mounted in WSL: slow, and without the permissions git needs from inside a container");
        Verdict::Red(d)
    } else if macos {
        if str_starts_with(path, "/Users/") || str_starts_with(path, "/Volumes/") || str_starts_with(path, "/private/")
            || str_starts_with(path, "/tmp/") {
            let mut d = owned(path);
            push_str(&mut d, " is under a directory the engine shares");
            Verdict::Green(d)
        } else {
            let mut d = owned(path);
            push_str(&mut d, " is outside what a container engine shares by default (/Users/, /Volumes/, /private/, /tmp/)");
            Verdict::Red(d)
        }
    } else {
        let mut d = owned(path);
        push_str(&mut d, " is a native path");
        Verdict::Green(d)
    };
    Check { what: owned("the tree is on a path a container can mount"), verdict }
}

/// What the case-collision check finds.
pub open spec fn collisions_view(count: nat, clashes: Seq<Seq<char>>) -> VerdictView {
    if clashes.len() == 0 {
        VerdictView::Green(spec_decimal(count) + " paths, no collision"@)
    } else {
        VerdictView::Red(join(clashes, "; "@))
    }
}

/// Whether two paths of the tree differ only by case, from the paths seen
/// (`count` of them) and the clashes found among them.
pub fn case_collisions(count: usize, clashes: &[String]) -> (r: Check)
    ensures
        r.what@ == "no two paths differ only by case"@,
        clashes@.len() == 0 ==> (r.verdict matches Verdict::Green(d) && d@ == spec_decimal(count as nat)
            + " paths, no collision"@),
        clashes@.len() > 0 ==> (r.verdict matches Verdict::Red(d) && d@ == join(views(clashes@), "; "@)),
        verdict_view(r.verdict) == collisions_view(count as nat, views(clashes@)),
{
    let verdict = if clashes.len() == 0 {
        let mut d = decimal(count as u64);
        push_str(&mut d, " paths, no collision");
        Verdict::Green(d)
    } else {
        Verdict::Red(join_strings(clashes, "; "))
    };
    Check { what: owned("no two paths differ only by case"), verdict }
}

/// What the line-endings check finds.
pub open spec fn line_endings_view(file: Seq<char>, text: Option<Seq<char>>) -> VerdictView {
    match text {
        Some(t) => if crate::text::contains_text(t, "eol=lf"@) {
            VerdictView::Green(".gitattributes pins LF"@)
        } else {
            VerdictView::Red(file + " exists but does not pin `eol=lf`, so an editor on Windows can commit CRLF"@)
        },
        None => VerdictView::NotChecked("no "@ + file + " — line endings depend on each machine's git configuration"@),
    }
}

/// Whether line endings are pinned, from `.gitattributes` (`text`, nothing
/// when it could not be read).
pub fn line_endings(file: &str, text: Option<&str>) -> (r: Check)
    ensures
        r.what@ == "line endings are pinned"@,
        match text {
            Some(t) => if crate::text::contains_text(t@, "eol=lf"@) {
                r.verdict matches Verdict::Green(d) && d@ == ".gitattributes pins LF"@
            } else {
                r.verdict matches Verdict::Red(d) && d@ == file@
                    + " exists but does not pin `eol=lf`, so an editor on Windows can commit CRLF"@
            },
            None => r.verdict matches Verdict::NotChecked(d) && d@ == "no "@ + file@
                + " — line endings depend on each machine's git configuration"@,
        },
        verdict_view(r.verdict) == line_endings_view(file@, crate::text::opt_str(text)),
{
    let verdict = match text {
        Some(t) => if str_contains(t, "eol=lf") {
            Verdict::Green(owned(".gitattributes pins LF"))
        } else {
            let mut d = owned(file);
            push_str(&mut d, " exists but does not pin `eol=lf`, so an editor on Windows can commit CRLF");
            Verdict::Red(d)
        },
        None => {
            let mut d = owned("no ");
            push_str(&mut d, file);
            push_str(&mut d, " — line endings depend on each machine's git configuration");
            Verdict::NotChecked(d)
        },
    };
    Check { what: owned("line endings are pinned"), verdict }
}

/// What the HQ check finds.
pub open spec fn hq_view(hq_root: Seq<char>, is_dir: bool) -> VerdictView {
    if is_dir {
        VerdictView::Green(hq_root)
    } else {
        VerdictView::Red(hq_root + " is missing — state, missions and the journal live there"@)
    }
}

/// Whether the project's HQ exists: state, missions and the journal live
/// there.
pub fn hq_exists(hq_root: &str, is_dir: bool) -> (r: Check)
    ensures
        r.what@ == "the project's HQ exists"@,
        is_dir ==> (r.verdict matches Verdict::Green(d) && d@ == hq_root@),
        !is_dir ==> (r.verdict matches Verdict::Red(d) && d@ == hq_root@
            + " is missing — state, missions and the journal live there"@),
        verdict_view(r.verdict) == hq_view(hq_root@, is_dir),
{
    let verdict = if is_dir {
        Verdict::Green(owned(hq_root))
    } else {
        let mut d = owned(hq_root);
        push_str(&mut d, " is missing — state, missions and the journal live there");
        Verdict::Red(d)
    };
    Check { what: owned("the project's HQ exists"), verdict }
}

/// What the adapter check finds.
pub open spec fn known_harness_view(harness: Seq<char>, known: Seq<Seq<char>>) -> VerdictView {
    if known.contains(harness) {
        VerdictView::Green(harness)
    } else {
        VerdictView::Red(debug_quoted(harness) + " has no adapter; known: "@ + join(known, ", "@))
    }
}

/// Whether the declared harness is one of the adapters there are (`known`).
pub fn known_harness(harness: &str, known: &[String]) -> (r: Check)
    ensures
        r.what@ == "the declared harness has an adapter"@,
        views(known@).contains(harness@) ==> (r.verdict matches Verdict::Green(d) && d@ == harness@),
        !views(known@).contains(harness@) ==> (r.verdict matches Verdict::Red(d) && d@ == debug_quoted(harness@)
            + " has no adapter; known: "@ + join(views(known@), ", "@)),
        verdict_view(r.verdict) == known_harness_view(harness@, views(known@)),
{
    let mut i: usize = 0;
    while i < known.len()
        invariant
            i <= known@.len(),
            forall|j: int| 0 <= j < i ==> known@[j]@ != harness@,
        decreases known@.len() - i,
    {
        if str_eq(known[i].as_str(), harness) {
            assert(views(known@)[i as int] == harness@);
            return Check { what: owned("the declared harness has an adapter"), verdict: Verdict::Green(owned(harness)) };
        }
        i += 1;
    }
    assert(!views(known@).contains(harness@)) by {
        if views(known@).contains(harness@) {
            let j = choose|j: int| 0 <= j < views(known@).len() && views(known@)[j] == harness@;
            assert(known@[j]@ == harness@);
        }
    }
    let mut d = quoted(harness);
    push_str(&mut d, " has no adapter; known: ");
    push_str(&mut d, join_strings(known, ", ").as_str());
    Check { what: owned("the declared harness has an adapter"), verdict: Verdict::Red(d) }
}

/// A check's verdict, its words as text.
pub enum VerdictView {
    Red(Seq<char>),
    NotChecked(Seq<char>),
    Green(Seq<char>),
}

/// A verdict, as text.
pub open spec fn verdict_view(v: Verdict) -> VerdictView {
    match v {
        Verdict::Green(d) => VerdictView::Green(d@),
        Verdict::Red(d) => VerdictView::Red(d@),
        Verdict::NotChecked(d) => VerdictView::NotChecked(d@),
    }
}

/// What was found of the harness's own rules file, which the harness reads
/// in place of `AGENTS.md`.
#[derive(Debug, Clone, PartialEq, Eq)]
pub enum RulesFile {
    /// It does not exist.
    Absent,
    /// It is a symbolic link (to `AGENTS.md`).
    Link,
    /// Its text.
    Text(String),
    /// It exists and could not be read: why.
    Unreadable(String),
}

/// What the check that the rules reach the harness finds: `AGENTS.md` has
/// to be a file, and the harness's own rules file (`harness_file`, named by
/// the harness's adapter) has to exist and be a link to it or import it.
/// When no adapter names its rules file, whether the rules reach it cannot
/// be said.
pub open spec fn rules_view(agents: Seq<char>, agents_is_file: bool, harness_file: Option<Seq<char>>, found: RulesFile)
    -> VerdictView {
    if !agents_is_file {
        VerdictView::Red("no "@ + agents + " — the rules of the place have to be written somewhere"@)
    } else {
        match harness_file {
            None => VerdictView::NotChecked(
                "the harness's adapter names no rules file of its own, so whether it reads AGENTS.md cannot be said"@,
            ),
            Some(f) => match found {
                RulesFile::Absent => VerdictView::Red("no "@ + f
                    + ": the harness reads that file and not AGENTS.md, so the rules would never be read"@),
                RulesFile::Link => VerdictView::Green(f + " is a link to AGENTS.md"@),
                RulesFile::Text(t) => if crate::text::contains_text(t@, "AGENTS.md"@) {
                    VerdictView::Green(f + " imports AGENTS.md"@)
                } else {
                    VerdictView::Red(f + " does not import AGENTS.md — add `@AGENTS.md` to it"@)
                },
                RulesFile::Unreadable(why) => VerdictView::NotChecked(f + " could not be read: "@ + why@),
            },
        }
    }
}

/// Whether the rules of the place reach the harness that drives: a
/// mission must not start without them.
pub fn rules_are_reachable(agents: &str, agents_is_file: bool, harness_file: Option<&str>, found: &RulesFile) -> (r: Check)
    ensures
        r.what@ == "the rules of the place reach the harness"@,
        verdict_view(r.verdict) == rules_view(agents@, agents_is_file, crate::text::opt_str(harness_file), *found),
{
    let what = owned("the rules of the place reach the harness");
    if !agents_is_file {
        let mut d = owned("no ");
        push_str(&mut d, agents);
        push_str(&mut d, " — the rules of the place have to be written somewhere");
        return Check { what, verdict: Verdict::Red(d) };
    }
    let f = match harness_file {
        None => {
            return Check {
                what,
                verdict: Verdict::NotChecked(owned(
                    "the harness's adapter names no rules file of its own, so whether it reads AGENTS.md cannot be said",
                )),
            };
        },
        Some(f) => f,
    };
    let verdict = match found {
        RulesFile::Absent => {
            let mut d = owned("no ");
            push_str(&mut d, f);
            push_str(&mut d, ": the harness reads that file and not AGENTS.md, so the rules would never be read");
            Verdict::Red(d)
        },
        RulesFile::Link => {
            let mut d = owned(f);
            push_str(&mut d, " is a link to AGENTS.md");
            Verdict::Green(d)
        },
        RulesFile::Text(t) => if str_contains(t.as_str(), "AGENTS.md") {
            let mut d = owned(f);
            push_str(&mut d, " imports AGENTS.md");
            Verdict::Green(d)
        } else {
            let mut d = owned(f);
            push_str(&mut d, " does not import AGENTS.md — add `@AGENTS.md` to it");
            Verdict::Red(d)
        },
        RulesFile::Unreadable(why) => {
            let mut d = owned(f);
            push_str(&mut d, " could not be read: ");
            push_str(&mut d, why.as_str());
            Verdict::NotChecked(d)
        },
    };
    Check { what, verdict }
}

/// What the check of the account concludes, once an account is chosen:
/// one for another harness, a token inside the tree, no token, or a token
/// others can read are each said; otherwise the account is named.
pub open spec fn account_verdict(
    name: Seq<char>,
    account_harness: Seq<char>,
    harness: Seq<char>,
    path: Seq<char>,
    inside: bool,
    token_text: Seq<char>,
    mode: Option<u32>,
) -> VerdictView {
    if account_harness != harness {
        VerdictView::Red("account "@ + debug_quoted(name) + " authenticates "@ + account_harness + ", but this project runs "@
            + harness)
    } else if inside {
        VerdictView::Red(path + " is inside the repository, so every slot and every container would carry it"@)
    } else if trim(token_text).len() == 0 {
        VerdictView::NotChecked("account "@ + debug_quoted(name) + " has no token at "@ + path + " — put the output of `"@
            + spec_setup_command(account_harness) + "` there"@)
    } else if mode matches Some(m) && m & 0o077 != 0 {
        VerdictView::Red(path + " is readable by others ("@ + spec_octal((mode->0 & 0o777) as nat) + ") — `chmod 600` it"@)
    } else {
        VerdictView::Green(name + " ("@ + path + ")"@)
    }
}

/// Whether the account this project spends can authenticate: the index
/// read, an account chosen (nothing named and nothing to guess from is
/// something to do, not something broken), and that account judged. `root`
/// is the repository: a token file under it is in every slot and container.
pub fn harness_can_authenticate(
    accounts: &Result<Accounts, AccountError>,
    nunki_home: &str,
    named: Option<&str>,
    harness: &str,
    root: &str,
    token_text: &str,
    mode: Option<u32>,
) -> (r: Check)
    requires
        accounts matches Ok(a) ==> a.well_formed(),
    ensures
        r.what@ == "the account this project spends can authenticate"@,
        match accounts {
            Err(e) => verdict_view(r.verdict) == VerdictView::Red(account_error_message(*e)),
            Ok(a) => match a.choice(None, named) {
                None => verdict_view(r.verdict) == VerdictView::NotChecked(
                    crate::account::not_named_message(path_join(nunki_home@, INDEX_FILE@)),
                ),
                Some(name) => if !a.has(name) {
                    verdict_view(r.verdict) == VerdictView::NotChecked(
                        unknown_message(name, known_message(a.name_views(), path_join(nunki_home@, INDEX_FILE@))),
                    )
                } else {
                    exists|i: int| 0 <= i < a.accounts@.len() && #[trigger] a.accounts@[i].0@ == name
                        && verdict_view(r.verdict) == account_verdict(
                        name,
                        a.accounts@[i].1.harness@,
                        harness@,
                        path_join(nunki_home@, a.accounts@[i].1.token_file@),
                        crate::text::path_within(path_join(nunki_home@, a.accounts@[i].1.token_file@), root@),
                        token_text@,
                        mode,
                    )
                },
            },
        },
{
    let what = owned("the account this project spends can authenticate");
    let accounts = match accounts {
        Ok(a) => a,
        Err(e) => return Check { what, verdict: Verdict::Red(e.message()) },
    };
    let (name, account) = match accounts.choose_account(nunki_home, None, named) {
        Ok(pair) => pair,
        Err(e) => {
            let m = e.message();
            return Check { what, verdict: Verdict::NotChecked(m) };
        },
    };
    let verdict = if !str_eq(account.harness.as_str(), harness) {
        let mut d = owned("account ");
        push_str(&mut d, quoted(name.as_str()).as_str());
        push_str(&mut d, " authenticates ");
        push_str(&mut d, account.harness.as_str());
        push_str(&mut d, ", but this project runs ");
        push_str(&mut d, harness);
        Verdict::Red(d)
    } else {
        let path = account.token_path(nunki_home);
        if crate::text::is_within(path.as_str(), root) {
            let mut d = owned(path.as_str());
            push_str(&mut d, " is inside the repository, so every slot and every container would carry it");
            Verdict::Red(d)
        } else if crate::text::trimmed(token_text).as_str().unicode_len() == 0 {
            let mut d = owned("account ");
            push_str(&mut d, quoted(name.as_str()).as_str());
            push_str(&mut d, " has no token at ");
            push_str(&mut d, path.as_str());
            push_str(&mut d, " — put the output of `");
            push_str(&mut d, crate::account::setup_command(account.harness.as_str()).as_str());
            push_str(&mut d, "` there");
            Verdict::NotChecked(d)
        } else {
            let open = match mode {
                Some(m) => m & 0o077 != 0,
                None => false,
            };
            if open {
                let m = match mode { Some(m) => m, None => 0 };
                let mut d = owned(path.as_str());
                push_str(&mut d, " is readable by others (");
                push_str(&mut d, octal((m & 0o777) as u64).as_str());
                push_str(&mut d, ") — `chmod 600` it");
                Verdict::Red(d)
            } else {
                let mut d = owned(name.as_str());
                push_str(&mut d, " (");
                push_str(&mut d, path.as_str());
                push_str(&mut d, ")");
                Verdict::Green(d)
            }
        }
    };
    Check { what, verdict }
}

/// What the check of who the human is finds.
pub open spec fn human_view(who: Human, me_file: Seq<char>) -> VerdictView {
    match (opt_view(who.name), who.source) {
        (Some(n), Source::Declared(p)) => VerdictView::Green(n + ", from "@ + p@),
        (Some(n), Source::Git) => VerdictView::Green(n + ", from git"@),
        (Some(n), _) => VerdictView::NotChecked(n + " is the machine's account name, not something you said; write "@
            + me_file + " to be addressed properly"@),
        (None, _) => VerdictView::NotChecked("nothing says who you are; write "@ + me_file),
    }
}

/// Whether the engine knows who to hand a mission back to: a name the human
/// wrote or git's is a statement; the machine's account name is a guess, and
/// is said to be one.
pub fn somebody_to_hand_back_to(who: &Human, me_file: &str) -> (r: Check)
    ensures
        verdict_view(r.verdict) == human_view(*who, me_file@),
        r.what@ == "nunki knows who to hand a mission back to"@,
        match (opt_view(who.name), who.source) {
            (Some(n), Source::Declared(p)) => verdict_view(r.verdict) == VerdictView::Green(n + ", from "@ + p@),
            (Some(n), Source::Git) => verdict_view(r.verdict) == VerdictView::Green(n + ", from git"@),
            (Some(n), _) => verdict_view(r.verdict) == VerdictView::NotChecked(n
                + " is the machine's account name, not something you said; write "@ + me_file@
                + " to be addressed properly"@),
            (None, _) => verdict_view(r.verdict) == VerdictView::NotChecked("nothing says who you are; write "@ + me_file@),
        },
{
    let verdict = match (&who.name, &who.source) {
        (Some(name), Source::Declared(path)) => {
            let mut d = owned(name.as_str());
            push_str(&mut d, ", from ");
            push_str(&mut d, path.as_str());
            Verdict::Green(d)
        },
        (Some(name), Source::Git) => {
            let mut d = owned(name.as_str());
            push_str(&mut d, ", from git");
            Verdict::Green(d)
        },
        (Some(name), _) => {
            let mut d = owned(name.as_str());
            push_str(&mut d, " is the machine's account name, not something you said; write ");
            push_str(&mut d, me_file);
            push_str(&mut d, " to be addressed properly");
            Verdict::NotChecked(d)
        },
        (None, _) => {
            let mut d = owned("nothing says who you are; write ");
            push_str(&mut d, me_file);
            Verdict::NotChecked(d)
        },
    };
    Check { what: owned("nunki knows who to hand a mission back to"), verdict }
}

/// What the credentials check finds.
pub open spec fn credentials_view(credentials: Option<Seq<char>>, root: Seq<char>) -> VerdictView {
    match credentials {
        None => VerdictView::Green("none declared"@),
        Some(dir) => if path_within(dir, root) {
            VerdictView::Red(dir + " is inside the repository, so the coder would read it through the tree mount"@)
        } else {
            VerdictView::Green(dir)
        },
    }
}

/// Whether the test credentials live outside the tree: a directory inside
/// it would be mounted with the tree, where the coder reads it.
pub fn credentials_outside_the_tree(credentials: Option<&str>, root: &str) -> (r: Check)
    ensures
        verdict_view(r.verdict) == credentials_view(crate::text::opt_str(credentials), root@),
        r.what@ == "test credentials live outside the tree"@,
        match credentials {
            None => verdict_view(r.verdict) == VerdictView::Green("none declared"@),
            Some(dir) => if path_within(dir@, root@) {
                verdict_view(r.verdict) == VerdictView::Red(dir@
                    + " is inside the repository, so the coder would read it through the tree mount"@)
            } else {
                verdict_view(r.verdict) == VerdictView::Green(dir@)
            },
        },
{
    let what = owned("test credentials live outside the tree");
    let verdict = match credentials {
        None => Verdict::Green(owned("none declared")),
        Some(dir) => if crate::text::is_within(dir, root) {
            let mut d = owned(dir);
            push_str(&mut d, " is inside the repository, so the coder would read it through the tree mount");
            Verdict::Red(d)
        } else {
            Verdict::Green(owned(dir))
        },
    };
    Check { what, verdict }
}

/// What the coder's allowlist check of one stack finds.
pub open spec fn perimeter_view(fragment: Seq<char>, computed: Option<Result<Perimeter, PerimeterError>>) -> VerdictView {
    match computed {
        None => VerdictView::NotChecked(fragment + " has no allow.txt"@),
        Some(Ok(p)) => VerdictView::Green(spec_decimal(p.domains@.len()) + " domain(s), none of them the forge"@),
        Some(Err(e)) => VerdictView::Red(perimeter_error_message(e@)),
    }
}

/// What the coder's allowlist for one stack came to: no `allow.txt` in its
/// fragment (`fragment`), or the allowlist as computed, or why it could not
/// be. An allowlist that names the forge is a restriction not held.
pub fn coder_perimeter(stack: &str, fragment: &str, computed: Option<Result<Perimeter, PerimeterError>>) -> (r: Check)
    ensures
        verdict_view(r.verdict) == perimeter_view(fragment@, computed),
        r.what@ == "the coder's allowlist for "@ + stack@ + " names no forge domain"@,
        match computed {
            None => verdict_view(r.verdict) == VerdictView::NotChecked(fragment@ + " has no allow.txt"@),
            Some(Ok(p)) => verdict_view(r.verdict) == VerdictView::Green(spec_decimal(p.domains@.len())
                + " domain(s), none of them the forge"@),
            Some(Err(e)) => verdict_view(r.verdict) == VerdictView::Red(perimeter_error_message(e@)),
        },
{
    let mut what = owned("the coder's allowlist for ");
    push_str(&mut what, stack);
    push_str(&mut what, " names no forge domain");
    let verdict = match computed {
        None => {
            let mut d = owned(fragment);
            push_str(&mut d, " has no allow.txt");
            Verdict::NotChecked(d)
        },
        Some(Ok(p)) => {
            let mut d = decimal(p.domains.len() as u64);
            push_str(&mut d, " domain(s), none of them the forge");
            Verdict::Green(d)
        },
        Some(Err(e)) => Verdict::Red(e.message()),
    };
    Check { what, verdict }
}

/// What is said when a project declares no stack.
pub fn no_stack() -> (r: Check)
    ensures
        r.what@ == "the coder's allowlist names no forge domain"@,
        verdict_view(r.verdict) == VerdictView::NotChecked("no stack declared in nunki.yaml"@),
{
    Check {
        what: owned("the coder's allowlist names no forge domain"),
        verdict: Verdict::NotChecked(owned("no stack declared in nunki.yaml")),
    }
}

/// The check's title for one protected branch.
pub open spec fn protected_title(branch: Seq<char>) -> Seq<char> {
    branch + " is protected on the forge"@
}

fn title_for(branch: &str) -> (r: String)
    ensures
        r@ == protected_title(branch@),
{
    let mut t = owned(branch);
    push_str(&mut t, " is protected on the forge");
    t
}

/// Why the forge is not asked about protected branches, if it is not: the
/// human holds the rule (`by_hand`), there is no remote, the remote is on a
/// forge there is no adapter for, or there is no credential.
pub open spec fn not_asked(
    by_hand: bool,
    remote: Option<Seq<char>>,
    token: Option<Seq<char>>,
    token_file: Seq<char>,
) -> Option<Seq<char>> {
    if by_hand {
        Some("held by hand, as nunki.yaml declares (`forge_protection: by_hand`): the forge is not asked and would accept a push to it, so gate 2 and the human are the guards"@)
    } else {
        match remote {
            None => Some("the repository has no `origin` remote, so there is no forge to ask"@),
            Some(r) => match crate::forge::github::spec_repo_of_remote(r) {
                None => Some("the remote is on a forge nunki has no adapter for ("@ + trim(r)
                    + "): GitHub is the one it can ask"@),
                Some(_) => match token {
                    None => Some("no forge credential at "@ + token_file
                        + " — without one nunki cannot ask the forge, and says so"@),
                    Some(_) => None,
                },
            },
        }
    }
}

/// Whether each protected branch is protected on the forge, when the forge
/// is not asked: every branch is said not checked, with why. Never green,
/// since nothing can see a human keep a rule, and never red.
pub fn forge_not_asked(report: &mut Report, branches: &[String], why: &str)
    ensures
        final(report).checks@.len() == old(report).checks@.len() + branches@.len(),
        forall|i: int| 0 <= i < old(report).checks@.len() ==> final(report).checks@[i] == old(report).checks@[i],
        forall|i: int| 0 <= i < branches@.len() ==> ({
            let c = #[trigger] final(report).checks@[old(report).checks@.len() + i];
            c.what@ == protected_title(branches@[i]@) && verdict_view(c.verdict) == VerdictView::NotChecked(why@)
        }),
{
    let ghost start = report.checks@;
    let mut i: usize = 0;
    while i < branches.len()
        invariant
            i <= branches@.len(),
            report.checks@.len() == start.len() + i,
            forall|j: int| 0 <= j < start.len() ==> report.checks@[j] == start[j],
            forall|j: int| 0 <= j < i ==> ({
                let c = #[trigger] report.checks@[start.len() + j];
                c.what@ == protected_title(branches@[j]@) && verdict_view(c.verdict) == VerdictView::NotChecked(why@)
            }),
        decreases branches@.len() - i,
    {
        report.add(title_for(branches[i].as_str()), Verdict::NotChecked(owned(why)));
        i += 1;
    }
}

/// Why the forge is not asked when the human holds the rule.
pub const HELD_BY_HAND: &'static str = "held by hand, as nunki.yaml declares (`forge_protection: by_hand`): the forge is not asked and would accept a push to it, so gate 2 and the human are the guards";

/// The forge-protection check's first step, decided before anything is
/// read: when `nunki.yaml` declares `forge_protection: by_hand`, every
/// protected branch is said not checked, held by hand, and the answer is
/// that nothing is to be read — no remote, no credential, no forge. Otherwise
/// nothing is said yet, and the answer is that the remote and the credential
/// are to be read and handed to [`forge_protection_plan`].
pub fn forge_protection(by_hand: bool, branches: &[String], report: &mut Report) -> (read_on: bool)
    ensures
        read_on == !by_hand,
        !by_hand ==> final(report).checks@ == old(report).checks@,
        by_hand ==> final(report).checks@.len() == old(report).checks@.len() + branches@.len(),
        by_hand ==> forall|i: int| 0 <= i < old(report).checks@.len() ==> final(report).checks@[i] == old(report).checks@[i],
        by_hand ==> forall|i: int| 0 <= i < branches@.len() ==> ({
            let c = #[trigger] final(report).checks@[old(report).checks@.len() + i];
            c.what@ == protected_title(branches@[i]@) && verdict_view(c.verdict) == VerdictView::NotChecked(HELD_BY_HAND@)
        }),
{
    if by_hand {
        forge_not_asked(report, branches, HELD_BY_HAND);
        false
    } else {
        true
    }
}

/// Whether the forge is asked, and what about: the adapter and repository
/// when it is, or why it is not.
pub fn forge_protection_plan(by_hand: bool, remote: Option<&str>, api: &str, token: &Option<String>, token_file: &str) -> (r: Result<(crate::forge::github::GitHub, Repo), String>)
    ensures
        match not_asked(by_hand, crate::text::opt_str(remote), opt_view(*token), token_file@) {
            Some(why) => r matches Err(w) && w@ == why,
            None => r matches Ok((f, repo)) && f.api@ == api@ && (crate::forge::github::spec_repo_of_remote(remote->0@)
                matches Some((o, n)) && repo.owner@ == o && repo.name@ == n),
        },
{
    if by_hand {
        return Err(owned(
            "held by hand, as nunki.yaml declares (`forge_protection: by_hand`): the forge is not asked and would accept a push to it, so gate 2 and the human are the guards",
        ));
    }
    let remote = match remote {
        Some(r) => r,
        None => return Err(owned("the repository has no `origin` remote, so there is no forge to ask")),
    };
    let (forge, repo) = match crate::forge::of_remote_at(remote, api) {
        Some(pair) => pair,
        None => {
            let mut w = owned("the remote is on a forge nunki has no adapter for (");
            push_str(&mut w, crate::text::trimmed(remote).as_str());
            push_str(&mut w, "): GitHub is the one it can ask");
            return Err(w);
        },
    };
    match token {
        None => {
            let mut w = owned("no forge credential at ");
            push_str(&mut w, token_file);
            push_str(&mut w, " — without one nunki cannot ask the forge, and says so");
            Err(w)
        },
        Some(_) => Ok((forge, repo)),
    }
}

/// What the forge said about one protected branch.
pub open spec fn protection_verdict(repo: (Seq<char>, Seq<char>), branch: Seq<char>, answer: Result<Protection, ForgeError>) -> VerdictView {
    match answer {
        Ok(Protection::Protected) => VerdictView::Green("GitHub reports "@ + branch + " protected on "@ + repo.0 + "/"@ + repo.1),
        Ok(Protection::Unprotected) => VerdictView::Red("GitHub reports "@ + branch + " unprotected on "@ + repo.0 + "/"@
            + repo.1
            + ": the forge would accept a push to it, and gate 2 is the only guard left. Protect it on the forge — on a private GitHub repository that needs a paid plan — or, if you hold the rule yourself, declare `forge_protection: by_hand` in nunki.yaml"@),
        Ok(Protection::NoSuchBranch) => VerdictView::NotChecked(branch + " does not exist on "@ + repo.0 + "/"@ + repo.1
            + ", so there is nothing to protect yet"@),
        Err(e) => VerdictView::NotChecked("the forge did not say: "@ + forge_error_message(e)),
    }
}

/// Whether one protected branch is protected on the forge, from its
/// answer: anything the forge declines to answer is not checked, since a
/// check that cannot say "I do not know" lies.
pub fn branch_protection(repo: &Repo, branch: &str, answer: Result<Protection, ForgeError>) -> (r: Check)
    ensures
        r.what@ == protected_title(branch@),
        verdict_view(r.verdict) == protection_verdict((repo.owner@, repo.name@), branch@, answer),
{
    let verdict = match answer {
        Ok(Protection::Protected) => {
            let mut d = owned("GitHub reports ");
            push_str(&mut d, branch);
            push_str(&mut d, " protected on ");
            push_str(&mut d, repo.owner.as_str());
            push_str(&mut d, "/");
            push_str(&mut d, repo.name.as_str());
            Verdict::Green(d)
        },
        Ok(Protection::Unprotected) => {
            let mut d = owned("GitHub reports ");
            push_str(&mut d, branch);
            push_str(&mut d, " unprotected on ");
            push_str(&mut d, repo.owner.as_str());
            push_str(&mut d, "/");
            push_str(&mut d, repo.name.as_str());
            push_str(
                &mut d,
                ": the forge would accept a push to it, and gate 2 is the only guard left. Protect it on the forge — on a private GitHub repository that needs a paid plan — or, if you hold the rule yourself, declare `forge_protection: by_hand` in nunki.yaml",
            );
            Verdict::Red(d)
        },
        Ok(Protection::NoSuchBranch) => {
            let mut d = owned(branch);
            push_str(&mut d, " does not exist on ");
            push_str(&mut d, repo.owner.as_str());
            push_str(&mut d, "/");
            push_str(&mut d, repo.name.as_str());
            push_str(&mut d, ", so there is nothing to protect yet");
            Verdict::NotChecked(d)
        },
        Err(e) => {
            let mut d = owned("the forge did not say: ");
            push_str(&mut d, e.message().as_str());
            Verdict::NotChecked(d)
        },
    };
    Check { what: title_for(branch), verdict }
}

/// What `nunki check` found on the disk, in git and in the account index:
/// the program reads, and [`run`] judges.
pub struct Readings {
    /// `<root>/.git`, and whether it exists.
    pub dot_git: String,
    pub dot_git_exists: bool,
    /// The tree's path as the filesystem resolves it, and whether this is macOS.
    pub resolved_root: String,
    pub macos: bool,
    /// What `git ls-files` listed, or why it could not.
    pub listed: Result<Vec<String>, String>,
    /// `<root>/.gitattributes`, and its text when it could be read.
    pub attributes: String,
    pub attributes_text: Option<String>,
    /// The HQ, and whether it is a directory.
    pub hq_root: String,
    pub hq_is_dir: bool,
    /// The declared harness, and the adapters there are.
    pub harness: String,
    pub known: Vec<String>,
    /// `<root>/AGENTS.md` and whether it is a file; the harness's own rules
    /// file when its adapter names one, and what was found there.
    pub agents: String,
    pub agents_is_file: bool,
    pub harness_rules: Option<String>,
    pub rules_found: RulesFile,
    /// The account index, `~/.nunki/`, the account the project names, the
    /// repository, and the chosen account's token text and file mode.
    pub accounts: Result<Accounts, AccountError>,
    pub nunki_home: String,
    pub named: Option<String>,
    pub root: String,
    pub token_text: String,
    pub mode: Option<u32>,
    /// Who the human is, and the file that says it.
    pub who: Human,
    pub me_file: String,
    /// The declared test credentials' directory.
    pub credentials: Option<String>,
    /// Each declared stack: its name, its fragment, and its coder perimeter
    /// when the fragment has an allowlist.
    pub stacks: Vec<(String, String, Option<Result<Perimeter, PerimeterError>>)>,
}

/// The title of the coder-perimeter check for one stack.
pub open spec fn perimeter_title(stack: Seq<char>) -> Seq<char> {
    "the coder's allowlist for "@ + stack + " names no forge domain"@
}

/// What `nunki check` checks, in the order it checks it: the tree, the HQ,
/// the harness, its rules and its account, the human, the credentials, then the
/// coder's perimeter of each stack — or that there is none.
pub open spec fn run_titles(stacks: Seq<Seq<char>>) -> Seq<Seq<char>> {
    seq![
        "the project is a git repository"@,
        "the tree is on a path a container can mount"@,
        "no two paths differ only by case"@,
        "line endings are pinned"@,
        "the project's HQ exists"@,
        "the declared harness has an adapter"@,
        "the rules of the place reach the harness"@,
        "the account this project spends can authenticate"@,
        "nunki knows who to hand a mission back to"@,
        "test credentials live outside the tree"@,
    ] + if stacks.len() == 0 {
        seq!["the coder's allowlist names no forge domain"@]
    } else {
        stacks.map_values(|s: Seq<char>| perimeter_title(s))
    }
}

/// The titles of a list of checks.
pub open spec fn titles(cs: Seq<Check>) -> Seq<Seq<char>> {
    cs.map_values(|c: Check| c.what@)
}

/// The stacks' names.
pub open spec fn stack_names(stacks: Seq<(String, String, Option<Result<Perimeter, PerimeterError>>)>) -> Seq<Seq<char>> {
    stacks.map_values(|t: (String, String, Option<Result<Perimeter, PerimeterError>>)| t.0@)
}

/// `nunki check`: every check, in its order, each judged by its own
/// function from what was read. A list that could not be had is a check
/// not made, with why.
pub fn run(read: Readings) -> (report: Report)
    requires
        read.accounts matches Ok(a) ==> a.well_formed(),
    ensures
        titles(report.checks@) == run_titles(stack_names(read.stacks@)),
        verdict_view(report.checks@[0].verdict) == git_repository_view(read.dot_git@, read.dot_git_exists),
        verdict_view(report.checks@[1].verdict) == shareable_view(read.resolved_root@, read.macos),
        verdict_view(report.checks@[2].verdict) == match read.listed {
            Ok(paths) => collisions_view(paths@.len() as nat, clashes(views(paths@), paths@.len() as int)),
            Err(e) => VerdictView::NotChecked(e@),
        },
        verdict_view(report.checks@[3].verdict) == line_endings_view(read.attributes@, opt_view(read.attributes_text)),
        verdict_view(report.checks@[4].verdict) == hq_view(read.hq_root@, read.hq_is_dir),
        verdict_view(report.checks@[5].verdict) == known_harness_view(read.harness@, views(read.known@)),
        verdict_view(report.checks@[6].verdict) == rules_view(read.agents@, read.agents_is_file,
            opt_view(read.harness_rules), read.rules_found),
        match read.accounts {
            Err(e) => verdict_view(report.checks@[7].verdict) == VerdictView::Red(account_error_message(e)),
            Ok(a) => match crate::account::chosen_name(a.name_views(), opt_view(a.default), None, opt_view(read.named)) {
                None => verdict_view(report.checks@[7].verdict) == VerdictView::NotChecked(
                    crate::account::not_named_message(path_join(read.nunki_home@, INDEX_FILE@)),
                ),
                Some(name) => if !a.has(name) {
                    verdict_view(report.checks@[7].verdict) == VerdictView::NotChecked(
                        unknown_message(name, known_message(a.name_views(), path_join(read.nunki_home@, INDEX_FILE@))),
                    )
                } else {
                    exists|i: int| 0 <= i < a.accounts@.len() && #[trigger] a.accounts@[i].0@ == name
                        && verdict_view(report.checks@[7].verdict) == account_verdict(
                        name,
                        a.accounts@[i].1.harness@,
                        read.harness@,
                        path_join(read.nunki_home@, a.accounts@[i].1.token_file@),
                        path_within(path_join(read.nunki_home@, a.accounts@[i].1.token_file@), read.root@),
                        read.token_text@,
                        read.mode,
                    )
                },
            },
        },
        verdict_view(report.checks@[8].verdict) == human_view(read.who, read.me_file@),
        verdict_view(report.checks@[9].verdict) == credentials_view(opt_view(read.credentials), read.root@),
        read.stacks@.len() == 0 ==> verdict_view(report.checks@[10].verdict) == VerdictView::NotChecked(
            "no stack declared in nunki.yaml"@,
        ),
        forall|i: int| 0 <= i < read.stacks@.len() ==> verdict_view(#[trigger] report.checks@[10 + i].verdict)
            == perimeter_view(read.stacks@[i].1@, read.stacks@[i].2),
{
    let c0 = git_repository(read.dot_git.as_str(), read.dot_git_exists);
    let c1 = shareable_path(read.resolved_root.as_str(), read.macos);
    let listed = read.listed;
    let c2 = match listed {
        Ok(paths) => {
            let clashes = collisions(paths.as_slice());
            case_collisions(paths.len(), clashes.as_slice())
        },
        Err(e) => Check { what: owned("no two paths differ only by case"), verdict: Verdict::NotChecked(e) },
    };
    let text = match &read.attributes_text {
        Some(t) => Some(t.as_str()),
        None => None,
    };
    let c3 = line_endings(read.attributes.as_str(), text);
    let c4 = hq_exists(read.hq_root.as_str(), read.hq_is_dir);
    let c5 = known_harness(read.harness.as_str(), read.known.as_slice());
    let harness_rules = match &read.harness_rules {
        Some(f) => Some(f.as_str()),
        None => None,
    };
    let c6 = rules_are_reachable(read.agents.as_str(), read.agents_is_file, harness_rules, &read.rules_found);
    let named = match &read.named {
        Some(n) => Some(n.as_str()),
        None => None,
    };
    let c7 = harness_can_authenticate(
        &read.accounts,
        read.nunki_home.as_str(),
        named,
        read.harness.as_str(),
        read.root.as_str(),
        read.token_text.as_str(),
        read.mode,
    );
    let c8 = somebody_to_hand_back_to(&read.who, read.me_file.as_str());
    let credentials = match &read.credentials {
        Some(c) => Some(c.as_str()),
        None => None,
    };
    let c9 = credentials_outside_the_tree(credentials, read.root.as_str());
    let ghost fixed = seq![c0, c1, c2, c3, c4, c5, c6, c7, c8, c9];
    let mut checks: Vec<Check> = vec![c0, c1, c2, c3, c4, c5, c6, c7, c8, c9];
    assert(checks@ =~= fixed);
    let ghost prefix = checks@;
    let ghost head = titles(checks@);
    assert(head =~= run_titles(stack_names(read.stacks@)).take(10));
    let mut stacks = read.stacks;
    let ghost orig = stacks@;
    assert(orig.len() == stacks.len());
    let ghost names = stack_names(orig);
    if stacks.len() == 0 {
        checks.push(no_stack());
        assert(titles(checks@) =~= run_titles(names));
    } else {
        let mut i: usize = 0;
        while stacks.len() > 0
            invariant
                i <= orig.len(),
                orig.len() <= usize::MAX,
                stacks@ == orig.skip(i as int),
                names == stack_names(orig),
                prefix.len() == 10,
                checks@.len() == 10 + i,
                forall|j: int| 0 <= j < 10 ==> checks@[j] == prefix[j],
                forall|j: int| 0 <= j < i ==> verdict_view(#[trigger] checks@[10 + j].verdict)
                    == perimeter_view(orig[j].1@, orig[j].2),
                titles(checks@) =~= head + names.take(i as int).map_values(|s: Seq<char>| perimeter_title(s)),
            decreases stacks@.len(),
        {
            let ghost left = stacks@;
            let (stack, fragment, computed) = stacks.remove(0);
            assert(orig[i as int] == left[0]);
            assert(stacks@ =~= orig.skip(i + 1));
            let c = coder_perimeter(stack.as_str(), fragment.as_str(), computed);
            let ghost before = checks@;
            checks.push(c);
            assert(titles(checks@) =~= titles(before).push(c.what@));
            assert(names[i as int] == stack@);
            assert(names.take(i + 1) =~= names.take(i as int).push(stack@));
            assert(names.take(i + 1).map_values(|s: Seq<char>| perimeter_title(s)) =~= names.take(i as int).map_values(
                |s: Seq<char>| perimeter_title(s),
            ).push(perimeter_title(stack@)));
            i += 1;
        }
        assert(orig.skip(i as int).len() == 0);
        assert(i == orig.len());
        assert(names.take(i as int) =~= names);
    }
    Report { checks }
}

} // verus!
