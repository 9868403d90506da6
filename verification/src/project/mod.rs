//! A project: the repository the HQ orchestrates, its home, and what its
//! configuration declares.
//!
//! Two places, and they are never the same. The repository is the human's,
//! and almost nothing is written in it. Everything else lives in the
//! project's home, `~/.nunki/<id>/`: `nunki.yaml`, which names the
//! repository it belongs to; `hq/`, the HQ; and `stacks/<stack>/`, the stack
//! fragments. Reading files and asking git are the program's part; what
//! they say is judged here.

use vstd::prelude::*;
use crate::git::GitError;
use crate::mission::Bounds;
use crate::sessions::{sessions_error_message, SessionsError};
use crate::text::{
    chars_of, contains_text, has_prefix, join, join_path, join_strings, lead_count, lines, owned, path_file_name,
    path_join, path_parent, push_str, str_contains, str_starts_with, string_of, text_lines, trail_count, trim,
    trim_char, trim_char_span, trim_span, trimmed, views,
};

verus! {

/// The two modes of protection. There is no "ask": nothing can ask in an
/// autonomous run.
#[derive(Debug, Clone, Default, PartialEq, Eq)]
pub struct ProtectedPaths {
    /// Refused outright.
    pub refuse: Vec<String>,
    /// Refused only where the file already exists on the base.
    pub refuse_if_exists: Vec<String>,
}

/// The file `nunki init` writes in the project's home, and every verb reads.
pub const CONFIG_FILE: &'static str = "nunki.yaml";
/// The HQ, inside the project's home.
pub const HQ_DIR: &'static str = "hq";
/// The stack fragments, inside the project's home.
pub const STACKS_DIR: &'static str = "stacks";
/// Where a stack fragment declares the directories an execution must be able
/// to write when the tree is read-only.
pub const WRITABLE_FILE: &'static str = "writable.txt";
/// Where a stack fragment declares the caches its toolchain keeps outside
/// the tree.
pub const CACHES_FILE: &'static str = "caches.txt";
/// Where a stack fragment declares the domains its dependencies come from.
pub const ALLOW_FILE: &'static str = "allow.txt";

/// Who refuses a push to a protected branch besides gate 2: the forge, or
/// the human. A private repository on GitHub's free plan can neither protect
/// a branch nor say it does; `ByHand` is the written decision that the human
/// holds the rule instead.
#[derive(Debug, Clone, Copy, Default, PartialEq, Eq)]
pub enum ForgeProtection {
    /// The forge refuses the push, and the check asks it whether it would.
    #[default]
    Forge,
    /// The human holds the rule; the check does not ask the forge.
    ByHand,
}

/// The project's configuration, as `nunki.yaml` declares it.
#[derive(Debug, Clone, PartialEq, Eq)]
pub struct Config {
    /// The repository this configuration belongs to.
    pub root: Option<String>,
    /// Which harness runs the agents.
    pub harness: String,
    /// The project's forge. No agent may reach it.
    pub forge: Vec<String>,
    /// Stack fragments this project uses.
    pub stacks: Vec<String>,
    /// Branches no mission may target or push to.
    pub protected_branches: Vec<String>,
    pub protected_paths: ProtectedPaths,
    /// The account this project's missions spend unless one says otherwise.
    pub account: Option<String>,
    /// Which model the agents run on, when the harness takes one.
    pub model: Option<String>,
    /// How the harness answers a permission it would otherwise ask about.
    pub permission_mode: String,
    pub bounds: Bounds,
    /// Where the test credentials live, mounted on a system profile only.
    pub credentials: Option<String>,
    /// How the application is started, overriding the stack's `run.sh`.
    pub run: Option<String>,
    /// The project's own Compose file, merged into every system profile.
    pub services_file: Option<String>,
    pub forge_protection: ForgeProtection,
}

/// The branches protected when the configuration names none.
pub fn default_protected_branches() -> (r: Vec<String>)
    ensures
        views(r@) == seq!["main"@, "master"@, "dev"@],
{
    let mut r: Vec<String> = Vec::new();
    r.push(owned("main"));
    r.push(owned("master"));
    r.push(owned("dev"));
    assert(views(r@) =~= seq!["main"@, "master"@, "dev"@]);
    r
}

/// The permission mode when the configuration names none: the harness's own
/// safety checks decide, and the agent keeps working.
pub fn default_permission_mode() -> (r: String)
    ensures
        r@ == "auto"@,
{
    owned("auto")
}

/// Why a project could not be opened.
#[derive(Debug)]
pub enum ProjectError {
    NotARepository(String),
    GitSilent { at: String, said: String },
    NotRegistered(String),
    Sessions(SessionsError),
    NotAProject { root: String, config: String },
    ClaimedBy { config: String, claimed: String, here: String },
    Unclaimed { config: String, here: String },
    ConfigInTheTree { found: String, home: String, root: String },
    FlatHq { home: String },
    Unreadable(String, String),
    Invalid(String, String),
    NoHome,
}

/// What a project error says.
pub open spec fn project_error_message(e: ProjectError) -> Seq<char> {
    match e {
        ProjectError::NotARepository(p) => p@ + " is not inside a git repository, and nunki orchestrates a repository"@,
        ProjectError::GitSilent { at, said } => "git could not answer for "@ + at@
            + ", so nunki cannot say which repository this is: "@ + said@,
        ProjectError::NotRegistered(p) => "the repository at "@ + p@
            + " is in no project of this machine — `nunki init` makes it one, and `nunki adopt <id>` points an existing project here if you moved it"@,
        ProjectError::Sessions(s) => sessions_error_message(s),
        ProjectError::NotAProject { root, config } => "no "@ + config@ + " for the repository at "@ + root@
            + " — run `nunki init` there first"@,
        ProjectError::ClaimedBy { config, claimed, here } => config@ + " belongs to the repository at "@ + claimed@
            + ", not to "@ + here@
            + ": two repositories with the same directory name cannot share one home — rename one of them"@,
        ProjectError::Unclaimed { config, here } => config@ + " does not say which repository it belongs to — add `root: "@
            + here@ + "` to it"@,
        ProjectError::ConfigInTheTree { found, home, root } => found@
            + " is in the repository, and nunki's configuration now lives outside it: move it to "@ + home@ + "/"@
            + CONFIG_FILE@ + " with `root: "@ + root@ + "` added, and move `.nunki/stacks/` to "@ + home@ + "/"@
            + STACKS_DIR@ + "/"@,
        ProjectError::FlatHq { home } => home@ + " holds the HQ at its top level, and the HQ now lives in "@ + home@
            + "/"@ + HQ_DIR@
            + "/: move state/, locks/, missions/ and whatever else nunki wrote there into it"@,
        ProjectError::Unreadable(p, why) => p@ + " could not be read: "@ + why@,
        ProjectError::Invalid(p, why) => p@ + " is not valid: "@ + why@,
        ProjectError::NoHome => "no home directory: every project's home lives under ~/.nunki"@,
    }
}

impl ProjectError {
    /// What the error says, in words a human acts on.
    pub fn message(&self) -> (r: String)
        ensures
            r@ == project_error_message(*self),
    {
        match self {
            ProjectError::NotARepository(p) => {
                let mut m = owned(p.as_str());
                push_str(&mut m, " is not inside a git repository, and nunki orchestrates a repository");
                m
            },
            ProjectError::GitSilent { at, said } => {
                let mut m = owned("git could not answer for ");
                push_str(&mut m, at.as_str());
                push_str(&mut m, ", so nunki cannot say which repository this is: ");
                push_str(&mut m, said.as_str());
                m
            },
            ProjectError::NotRegistered(p) => {
                let mut m = owned("the repository at ");
                push_str(&mut m, p.as_str());
                push_str(
                    &mut m,
                    " is in no project of this machine — `nunki init` makes it one, and `nunki adopt <id>` points an existing project here if you moved it",
                );
                m
            },
            ProjectError::Sessions(s) => s.message(),
            ProjectError::NotAProject { root, config } => {
                let mut m = owned("no ");
                push_str(&mut m, config.as_str());
                push_str(&mut m, " for the repository at ");
                push_str(&mut m, root.as_str());
                push_str(&mut m, " — run `nunki init` there first");
                m
            },
            ProjectError::ClaimedBy { config, claimed, here } => {
                let mut m = owned(config.as_str());
                push_str(&mut m, " belongs to the repository at ");
                push_str(&mut m, claimed.as_str());
                push_str(&mut m, ", not to ");
                push_str(&mut m, here.as_str());
                push_str(&mut m, ": two repositories with the same directory name cannot share one home — rename one of them");
                m
            },
            ProjectError::Unclaimed { config, here } => {
                let mut m = owned(config.as_str());
                push_str(&mut m, " does not say which repository it belongs to — add `root: ");
                push_str(&mut m, here.as_str());
                push_str(&mut m, "` to it");
                m
            },
            ProjectError::ConfigInTheTree { found, home, root } => {
                let mut m = owned(found.as_str());
                push_str(&mut m, " is in the repository, and nunki's configuration now lives outside it: move it to ");
                push_str(&mut m, home.as_str());
                push_str(&mut m, "/");
                push_str(&mut m, CONFIG_FILE);
                push_str(&mut m, " with `root: ");
                push_str(&mut m, root.as_str());
                push_str(&mut m, "` added, and move `.nunki/stacks/` to ");
                push_str(&mut m, home.as_str());
                push_str(&mut m, "/");
                push_str(&mut m, STACKS_DIR);
                push_str(&mut m, "/");
                m
            },
            ProjectError::FlatHq { home } => {
                let mut m = owned(home.as_str());
                push_str(&mut m, " holds the HQ at its top level, and the HQ now lives in ");
                push_str(&mut m, home.as_str());
                push_str(&mut m, "/");
                push_str(&mut m, HQ_DIR);
                push_str(&mut m, "/: move state/, locks/, missions/ and whatever else nunki wrote there into it");
                m
            },
            ProjectError::Unreadable(p, why) => {
                let mut m = owned(p.as_str());
                push_str(&mut m, " could not be read: ");
                push_str(&mut m, why.as_str());
                m
            },
            ProjectError::Invalid(p, why) => {
                let mut m = owned(p.as_str());
                push_str(&mut m, " is not valid: ");
                push_str(&mut m, why.as_str());
                m
            },
            ProjectError::NoHome => owned("no home directory: every project's home lives under ~/.nunki"),
        }
    }
}

/// An opened project: the repository, its configuration, its home and the
/// HQ inside it.
#[derive(Debug, Clone)]
pub struct Project {
    pub root: String,
    pub config: Config,
    /// `~/.nunki/<project>/`.
    pub home: String,
    /// `~/.nunki/<project>/hq/`.
    pub hq_root: String,
}

/// Whether a line of a stack file says something: not blank, not a comment.
pub open spec fn says(line: Seq<char>) -> bool {
    trim(line).len() > 0 && !has_prefix(trim(line), "#"@)
}

/// Whether a relative path climbs out with a `..` component.
pub open spec fn has_dotdot(s: Seq<char>) -> bool {
    exists|i: int| 0 <= i && i + 2 <= s.len() && (i == 0 || s[i - 1] == '/') && #[trigger] s[i] == '.' && s[i + 1] == '.'
        && (i + 2 == s.len() || s[i + 2] == '/')
}

/// A domain a stack declares: the line trimmed.
pub open spec fn domain_entry(line: Seq<char>) -> Option<Seq<char>> {
    if says(line) { Some(trim(line)) } else { None }
}

/// A writable directory a stack declares: relative to the tree, its slashes
/// at either end taken off, and never the tree itself or a way out of it.
pub open spec fn writable_entry(line: Seq<char>) -> Option<Seq<char>> {
    let d = trim_char(trim(line), '/');
    if says(line) && d.len() > 0 && d != "."@ && !has_dotdot(d) { Some(d) } else { None }
}

/// A cache a stack declares: an absolute path without a way out, its
/// trailing slashes taken off.
pub open spec fn cache_entry(line: Seq<char>) -> Option<Seq<char>> {
    let t = trim(line);
    let c = t.take(t.len() - trail_count(t, '/'));
    if says(line) && has_prefix(t, "/"@) && !has_dotdot(t) && c.len() > 0 { Some(c) } else { None }
}

/// What each line gives, in order, where it gives anything.
pub open spec fn collected(ls: Seq<Seq<char>>, f: spec_fn(Seq<char>) -> Option<Seq<char>>) -> Seq<Seq<char>>
    decreases ls.len(),
{
    if ls.len() == 0 {
        Seq::empty()
    } else {
        match f(ls.last()) {
            Some(x) => collected(ls.drop_last(), f).push(x),
            None => collected(ls.drop_last(), f),
        }
    }
}

/// The domain entry of each line.
pub open spec fn domain_entries() -> spec_fn(Seq<char>) -> Option<Seq<char>> {
    |l: Seq<char>| domain_entry(l)
}

/// The writable entry of each line.
pub open spec fn writable_entries() -> spec_fn(Seq<char>) -> Option<Seq<char>> {
    |l: Seq<char>| writable_entry(l)
}

/// The cache entry of each line.
pub open spec fn cache_entries() -> spec_fn(Seq<char>) -> Option<Seq<char>> {
    |l: Seq<char>| cache_entry(l)
}

fn line_says(line: &str) -> (b: bool)
    ensures
        b == says(line@),
{
    let t = trimmed(line);
    proof {
        reveal_strlit("#");
    }
    t.as_str().unicode_len() > 0 && !str_starts_with(t.as_str(), "#")
}

fn dotdot_in(s: &[char]) -> (b: bool)
    ensures
        b == has_dotdot(s@),
{
    let mut i: usize = 0;
    while i < s.len()
        invariant
            i <= s@.len(),
            forall|j: int| 0 <= j < i ==> !(j + 2 <= s@.len() && (j == 0 || s@[j - 1] == '/') && #[trigger] s@[j] == '.'
                && s@[j + 1] == '.' && (j + 2 == s@.len() || s@[j + 2] == '/')),
        decreases s@.len() - i,
    {
        if 2 <= s.len() - i && (i == 0 || s[i - 1] == '/') && s[i] == '.' && s[i + 1] == '.' && (i + 2 == s.len()
            || s[i + 2] == '/') {
            return true;
        }
        i += 1;
    }
    false
}

fn domain_of(line: &str) -> (r: Option<String>)
    ensures
        match (r, domain_entry(line@)) {
            (Some(a), Some(b)) => a@ == b,
            (None, None) => true,
            _ => false,
        },
{
    if line_says(line) { Some(trimmed(line)) } else { None }
}

fn writable_of(line: &str) -> (r: Option<String>)
    ensures
        match (r, writable_entry(line@)) {
            (Some(a), Some(b)) => a@ == b,
            (None, None) => true,
            _ => false,
        },
{
    if !line_says(line) {
        return None;
    }
    let v = chars_of(line);
    let (a, b) = trim_span(v.as_slice(), 0, v.len());
    assert(v@.subrange(0, v@.len() as int) =~= line@);
    let (c, d) = trim_char_span(v.as_slice(), a, b, '/');
    let dir = crate::text::slice_to_vec(v.as_slice(), c, d);
    proof {
        reveal_strlit(".");
    }
    if dir.len() == 0 || (dir.len() == 1 && dir[0] == '.') || dotdot_in(dir.as_slice()) {
        assert(dir.len() == 1 && dir[0] == '.' ==> dir@ =~= "."@);
        return None;
    }
    assert(dir@ != "."@ ==> true);
    assert(dir@ == "."@ ==> dir.len() == 1 && dir@[0] == '.');
    Some(string_of(v.as_slice(), c, d))
}

fn cache_of(line: &str) -> (r: Option<String>)
    ensures
        match (r, cache_entry(line@)) {
            (Some(a), Some(b)) => a@ == b,
            (None, None) => true,
            _ => false,
        },
{
    if !line_says(line) {
        return None;
    }
    let v = chars_of(line);
    let (a, b) = trim_span(v.as_slice(), 0, v.len());
    assert(v@.subrange(0, v@.len() as int) =~= line@);
    let t = crate::text::slice_to_vec(v.as_slice(), a, b);
    proof {
        reveal_strlit("/");
    }
    assert(t@ == trim(line@));
    if t.len() == 0 || t[0] != '/' || dotdot_in(t.as_slice()) {
        assert(t.len() > 0 && t[0] != '/' ==> t@.take(1) != "/"@) by {
            if t.len() > 0 && t[0] != '/' {
                assert(t@.take(1)[0] != "/"@[0]);
            }
        }
        return None;
    }
    assert(t@.take(1) =~= "/"@);
    let n = crate::text::count_trail(t.as_slice(), '/');
    if n == t.len() {
        assert(t@.take(t@.len() - n) =~= Seq::<char>::empty());
        return None;
    }
    assert(t@.subrange(0, t@.len() - n) =~= t@.take(t@.len() - n));
    Some(string_of(t.as_slice(), 0, t.len() - n))
}

/// The domains a stack file declares: each line that says something,
/// trimmed.
pub fn domains_in(text: &str) -> (r: Vec<String>)
    ensures
        views(r@) == collected(lines(text@), domain_entries()),
{
    let ls = text_lines(text);
    let ghost lv = views(ls@);
    let mut r: Vec<String> = Vec::new();
    let mut i: usize = 0;
    while i < ls.len()
        invariant
            i <= ls@.len(),
            lv == views(ls@),
            lv == lines(text@),
            views(r@) == collected(lv.take(i as int), domain_entries()),
        decreases ls@.len() - i,
    {
        let ghost before = views(r@);
        assert(lv.take(i + 1).drop_last() =~= lv.take(i as int));
        match domain_of(ls[i].as_str()) {
            Some(d) => {
                r.push(d);
                assert(views(r@) =~= before.push(domain_entry(lv[i as int])->0));
            },
            None => {},
        }
        i += 1;
    }
    assert(lv.take(i as int) =~= lv);
    r
}

/// The directories a stack file declares writable: relative to the tree,
/// and what is not declared stays closed.
pub fn writable_in(text: &str) -> (r: Vec<String>)
    ensures
        views(r@) == collected(lines(text@), writable_entries()),
{
    let ls = text_lines(text);
    let ghost lv = views(ls@);
    let mut r: Vec<String> = Vec::new();
    let mut i: usize = 0;
    while i < ls.len()
        invariant
            i <= ls@.len(),
            lv == views(ls@),
            lv == lines(text@),
            views(r@) == collected(lv.take(i as int), writable_entries()),
        decreases ls@.len() - i,
    {
        let ghost before = views(r@);
        assert(lv.take(i + 1).drop_last() =~= lv.take(i as int));
        match writable_of(ls[i].as_str()) {
            Some(d) => {
                r.push(d);
                assert(views(r@) =~= before.push(writable_entry(lv[i as int])->0));
            },
            None => {},
        }
        i += 1;
    }
    assert(lv.take(i as int) =~= lv);
    r
}

/// The caches a stack file declares outside the tree, as absolute paths in
/// the container: a relative one would land wherever the working directory
/// happens to be.
pub fn caches_in(text: &str) -> (r: Vec<String>)
    ensures
        views(r@) == collected(lines(text@), cache_entries()),
{
    let ls = text_lines(text);
    let ghost lv = views(ls@);
    let mut r: Vec<String> = Vec::new();
    let mut i: usize = 0;
    while i < ls.len()
        invariant
            i <= ls@.len(),
            lv == views(ls@),
            lv == lines(text@),
            views(r@) == collected(lv.take(i as int), cache_entries()),
        decreases ls@.len() - i,
    {
        let ghost before = views(r@);
        assert(lv.take(i + 1).drop_last() =~= lv.take(i as int));
        match cache_of(ls[i].as_str()) {
            Some(d) => {
                r.push(d);
                assert(views(r@) =~= before.push(cache_entry(lv[i as int])->0));
            },
            None => {},
        }
        i += 1;
    }
    assert(lv.take(i as int) =~= lv);
    r
}

impl Project {
    /// A project rooted exactly here, with its home somewhere chosen.
    pub fn at(root: String, config: Config, home: String) -> (r: Project)
        ensures
            r.root@ == root@,
            r.config == config,
            r.home@ == home@,
            r.hq_root@ == path_join(home@, HQ_DIR@),
    {
        let hq_root = join_path(home.as_str(), HQ_DIR);
        Project { root, config, home, hq_root }
    }

    /// `~/.nunki/`, the directory every project's home sits under: derived
    /// from the home, so a test can point the whole thing elsewhere.
    pub fn nunki_home(&self) -> (r: String)
        ensures
            r@ == match path_parent(self.home@) {
                Some(p) => p,
                None => self.home@,
            },
    {
        match crate::text::parent_of(self.home.as_str()) {
            Some(p) => p,
            None => owned(self.home.as_str()),
        }
    }

    /// The session this project is registered under: the name of its home.
    pub fn session(&self) -> (r: String)
        ensures
            r@ == match path_file_name(self.home@) {
                Some(n) => n,
                None => "session"@,
            },
    {
        match crate::text::file_name_of(self.home.as_str()) {
            Some(n) => n,
            None => owned("session"),
        }
    }

    /// The repository's directory name.
    pub fn name(&self) -> (r: String)
        ensures
            r@ == match path_file_name(self.root@) {
                Some(n) => n,
                None => "project"@,
            },
    {
        match crate::text::file_name_of(self.root.as_str()) {
            Some(n) => n,
            None => owned("project"),
        }
    }

    /// The stack fragment directory for `stack` in the project's home,
    /// whether or not it exists.
    pub fn fragment(&self, stack: &str) -> (r: String)
        ensures
            r@ == path_join(path_join(self.home@, STACKS_DIR@), stack@),
    {
        let dir = join_path(self.home.as_str(), STACKS_DIR);
        join_path(dir.as_str(), stack)
    }

    /// The layout a home must have before its configuration is read: a
    /// configuration in the home (`config_in_home`), and the HQ in `hq/`
    /// rather than at the top (`flat`: a `state/` and no `hq/`). A
    /// configuration still in the repository (`config_in_tree`) is said by
    /// name: nothing is moved silently.
    pub fn check_layout(root: &str, home: &str, config_in_home: bool, config_in_tree: bool, flat: bool) -> (r: Result<(), ProjectError>)
        ensures
            config_in_home && !flat ==> r is Ok,
            config_in_home && flat ==> (r matches Err(ProjectError::FlatHq { home: h }) && h@ == home@),
            !config_in_home && config_in_tree ==> (r matches Err(ProjectError::ConfigInTheTree { found, home: h, root: o })
                && found@ == path_join(root@, CONFIG_FILE@) && h@ == home@ && o@ == root@),
            !config_in_home && !config_in_tree ==> (r matches Err(ProjectError::NotAProject { root: o, config })
                && o@ == root@ && config@ == path_join(home@, CONFIG_FILE@)),
    {
        if !config_in_home {
            if config_in_tree {
                return Err(ProjectError::ConfigInTheTree { found: join_path(root, CONFIG_FILE), home: owned(home), root: owned(root) });
            }
            return Err(ProjectError::NotAProject { root: owned(root), config: join_path(home, CONFIG_FILE) });
        }
        if flat {
            return Err(ProjectError::FlatHq { home: owned(home) });
        }
        Ok(())
    }

    /// The project, once its configuration is read: it must name the
    /// repository it belongs to, and that must be this one (`same`: the two
    /// paths resolve to one directory).
    pub fn claimed(root: String, home: String, config: Config, same: bool) -> (r: Result<Project, ProjectError>)
        ensures
            config.root is None ==> (r matches Err(ProjectError::Unclaimed { config: c, here })
                && c@ == path_join(home@, CONFIG_FILE@) && here@ == root@),
            config.root is Some && !same ==> (r matches Err(ProjectError::ClaimedBy { config: c, claimed, here })
                && c@ == path_join(home@, CONFIG_FILE@) && claimed@ == config.root->0@ && here@ == root@),
            config.root is Some && same ==> (r matches Ok(p) && p.root@ == root@ && p.home@ == home@
                && p.config == config && p.hq_root@ == path_join(home@, HQ_DIR@)),
    {
        let file = join_path(home.as_str(), CONFIG_FILE);
        match &config.root {
            None => Err(ProjectError::Unclaimed { config: file, here: root }),
            Some(claimed) => if !same {
                Err(ProjectError::ClaimedBy { config: file, claimed: owned(claimed.as_str()), here: root })
            } else {
                Ok(Project::at(root, config, home))
            },
        }
    }

    /// The top level of the repository containing `start`, from git's
    /// answer in `dir` (already resolved on the filesystem when it is one).
    /// Git saying there is no repository here and git unable to run at all
    /// send a human to different places.
    pub fn find_root(start: &str, dir: &str, answer: Result<String, GitError>) -> (r: Result<String, ProjectError>)
        ensures
            match answer {
                Ok(top) => r matches Ok(t) && t@ == top@,
                Err(GitError::Failed { stderr, .. }) if contains_text(stderr@, "not a git repository"@) => r matches Err(
                    ProjectError::NotARepository(p),
                ) && p@ == start@,
                Err(e) => r matches Err(ProjectError::GitSilent { at, said }) && at@ == dir@
                    && said@ == crate::git::git_error_message(e),
            },
    {
        match answer {
            Ok(top) => Ok(top),
            Err(e) => {
                let not_here = match &e {
                    GitError::Failed { stderr, .. } => str_contains(stderr.as_str(), "not a git repository"),
                    GitError::Missing(_) => false,
                };
                if not_here {
                    Err(ProjectError::NotARepository(owned(start)))
                } else {
                    Err(ProjectError::GitSilent { at: owned(dir), said: e.message() })
                }
            },
        }
    }

    /// Where the project rooted at `root` keeps everything that is not the
    /// repository's: `~/.nunki/<id>/`, the identifier the ledger holds for
    /// it (`found`).
    pub fn home_in(nunki_home: &str, root: &str, found: Option<String>) -> (r: Result<String, ProjectError>)
        ensures
            match found {
                Some(id) => r matches Ok(h) && h@ == path_join(nunki_home@, id@),
                None => r matches Err(ProjectError::NotRegistered(p)) && p@ == root@,
            },
    {
        match found {
            Some(id) => Ok(join_path(nunki_home, id.as_str())),
            None => Err(ProjectError::NotRegistered(owned(root))),
        }
    }

    /// The home of a project whose session is `id`, opened when it had none.
    pub fn home_for_new_in(nunki_home: &str, id: &str) -> (r: String)
        ensures
            r@ == path_join(nunki_home@, id@),
    {
        join_path(nunki_home, id)
    }

    /// `~/.nunki/`, from `$HOME`: the one place the environment is read.
    pub fn nunki_dir(home: Option<&str>) -> (r: Result<String, ProjectError>)
        ensures
            match home {
                Some(h) => r matches Ok(d) && d@ == path_join(h@, ".nunki"@),
                None => r matches Err(ProjectError::NoHome),
            },
    {
        match home {
            Some(h) => Ok(join_path(h, ".nunki")),
            None => Err(ProjectError::NoHome),
        }
    }
}

/// The index of the first line that starts with `root:`, or the number of
/// lines.
pub open spec fn root_line(ls: Seq<Seq<char>>) -> int {
    crate::text::first_from(0, ls.len() as int, |i: int| has_prefix(ls[i], "root:"@))
}

/// A configuration's text with its `root:` line saying `root`: the first
/// such line replaced, or one put first; the rest as it was, comments and
/// all.
pub open spec fn spec_claim(text: Seq<char>, root: Seq<char>) -> Seq<char> {
    let ls = lines(text);
    let said = "root: "@ + root;
    let k = root_line(ls);
    let out = if k < ls.len() { ls.update(k, said) } else { seq![said] + ls };
    join(out, "\n"@) + "\n"@
}

/// A configuration's text with its `root:` line saying `root`, rewritten
/// line by line rather than re-serialised: the file is the human's.
pub fn claim(text: &str, root: &str) -> (r: String)
    ensures
        r@ == spec_claim(text@, root@),
{
    let mut ls = text_lines(text);
    let ghost lv = views(ls@);
    let mut said = owned("root: ");
    push_str(&mut said, root);
    let ghost q = |i: int| has_prefix(lv[i], "root:"@);
    let mut i: usize = 0;
    while i < ls.len() && !str_starts_with(ls[i].as_str(), "root:")
        invariant
            i <= ls@.len(),
            lv == views(ls@),
            q == (|i: int| has_prefix(lv[i], "root:"@)),
            crate::text::first_from(0, lv.len() as int, q) == crate::text::first_from(i as int, lv.len() as int, q),
        decreases ls@.len() - i,
    {
        assert(!q(i as int));
        i += 1;
    }
    if i < ls.len() {
        assert(q(i as int));
        ls.set(i, said);
        assert(views(ls@) =~= lv.update(i as int, "root: "@ + root@));
    } else {
        ls.insert(0, said);
        assert(views(ls@) =~= seq!["root: "@ + root@] + lv);
    }
    let mut r = join_strings(ls.as_slice(), "\n");
    push_str(&mut r, "\n");
    r
}

} // verus!
