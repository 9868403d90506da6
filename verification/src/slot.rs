//! Slots: a local clone, its volumes, and one agent container at a time.
//!
//! A slot is where a mission happens. The clone has no hard links, its
//! `origin` is a host path that does not exist in the container, and it is
//! created beside the repository, never on another volume. Cloning, listing
//! directories and removing volumes are the program's part; what a slot is
//! called, where it lives and what a reset or a removal refuses are decided
//! here.

use vstd::prelude::*;
use crate::git::{git_error_message, GitError};
use crate::project::Project;
use crate::text::{
    chars_of, debug_quoted, decimal, join_path, owned, path_file_name, path_join, path_parent, push_str, quoted,
    sorted_unique, spec_decimal, str_eq, strictly_sorted, views,
};

verus! {

/// A slot: its name and its tree.
#[derive(Debug, Clone, PartialEq, Eq)]
pub struct Slot {
    pub name: String,
    pub tree: String,
}

/// What a slot verb refused, or could not do.
#[derive(Debug)]
pub enum SlotError {
    Exists(String, String),
    Unknown(String, String),
    Unfetched { name: String, branch: String, count: usize, repository: String },
    Dirty(String),
    BadName(String),
    Git(GitError),
    Io(String, String),
}

/// What a slot error says.
pub open spec fn slot_error_message(e: SlotError) -> Seq<char> {
    match e {
        SlotError::Exists(n, at) => "slot "@ + debug_quoted(n@) + " already exists at "@ + at@,
        SlotError::Unknown(n, under) => "no slot "@ + debug_quoted(n@) + " under "@ + under@,
        SlotError::Unfetched { name, branch, count, repository } => "slot "@ + debug_quoted(name@) + " carries "@
            + spec_decimal(count as nat) + " commit(s) on "@ + branch@ + " that "@ + repository@
            + " does not have; `nunki mission fetch` first, or say so explicitly"@,
        SlotError::Dirty(n) => "slot "@ + debug_quoted(n@) + " has uncommitted work; commit it or discard it first"@,
        SlotError::BadName(n) => "a slot name may hold letters, digits, - and _ only, and "@ + debug_quoted(n@)
            + " does not"@,
        SlotError::Git(g) => git_error_message(g),
        SlotError::Io(p, why) => p@ + ": "@ + why@,
    }
}

impl SlotError {
    /// What the error says.
    pub fn message(&self) -> (r: String)
        ensures
            r@ == slot_error_message(*self),
    {
        match self {
            SlotError::Exists(n, at) => {
                let mut m = owned("slot ");
                push_str(&mut m, quoted(n.as_str()).as_str());
                push_str(&mut m, " already exists at ");
                push_str(&mut m, at.as_str());
                m
            },
            SlotError::Unknown(n, under) => {
                let mut m = owned("no slot ");
                push_str(&mut m, quoted(n.as_str()).as_str());
                push_str(&mut m, " under ");
                push_str(&mut m, under.as_str());
                m
            },
            SlotError::Unfetched { name, branch, count, repository } => {
                let mut m = owned("slot ");
                push_str(&mut m, quoted(name.as_str()).as_str());
                push_str(&mut m, " carries ");
                push_str(&mut m, decimal(*count as u64).as_str());
                push_str(&mut m, " commit(s) on ");
                push_str(&mut m, branch.as_str());
                push_str(&mut m, " that ");
                push_str(&mut m, repository.as_str());
                push_str(&mut m, " does not have; `nunki mission fetch` first, or say so explicitly");
                m
            },
            SlotError::Dirty(n) => {
                let mut m = owned("slot ");
                push_str(&mut m, quoted(n.as_str()).as_str());
                push_str(&mut m, " has uncommitted work; commit it or discard it first");
                m
            },
            SlotError::BadName(n) => {
                let mut m = owned("a slot name may hold letters, digits, - and _ only, and ");
                push_str(&mut m, quoted(n.as_str()).as_str());
                push_str(&mut m, " does not");
                m
            },
            SlotError::Git(g) => g.message(),
            SlotError::Io(p, why) => {
                let mut m = owned(p.as_str());
                push_str(&mut m, ": ");
                push_str(&mut m, why.as_str());
                m
            },
        }
    }
}

/// Where a project's slots live: a sibling of the repository, so the clone
/// stays on the same filesystem.
pub fn slots_dir(project: &Project) -> (r: String)
    ensures
        r@ == path_join(
            match path_parent(project.root@) { Some(p) => p, None => "."@ },
            match path_file_name(project.root@) { Some(n) => n, None => "project"@ } + "-slots"@,
        ),
{
    let parent = match crate::text::parent_of(project.root.as_str()) {
        Some(p) => p,
        None => owned("."),
    };
    let mut name = project.name();
    push_str(&mut name, "-slots");
    join_path(parent.as_str(), name.as_str())
}

/// An ASCII letter or digit.
pub open spec fn alnum(c: char) -> bool {
    ('a' <= c && c <= 'z') || ('A' <= c && c <= 'Z') || ('0' <= c && c <= '9')
}

/// A name that survives being a directory, a Compose project and a container
/// name: letters, digits, `-` and `_`, starting with a letter or a digit.
pub open spec fn good_name(name: Seq<char>) -> bool {
    &&& name.len() > 0
    &&& alnum(name[0])
    &&& forall|i: int| 0 <= i < name.len() ==> alnum(#[trigger] name[i]) || name[i] == '-' || name[i] == '_'
}

/// Whether `name` can be a slot's, or why not.
pub fn check_name(name: &str) -> (r: Result<(), SlotError>)
    ensures
        good_name(name@) ==> r is Ok,
        !good_name(name@) ==> (r matches Err(SlotError::BadName(n)) && n@ == name@),
{
    let v = chars_of(name);
    if v.len() == 0 {
        return Err(SlotError::BadName(owned(name)));
    }
    let c = v[0];
    if !(('a' <= c && c <= 'z') || ('A' <= c && c <= 'Z') || ('0' <= c && c <= '9')) {
        return Err(SlotError::BadName(owned(name)));
    }
    let mut i: usize = 0;
    while i < v.len()
        invariant
            v@ == name@,
            i <= v@.len(),
            forall|j: int| 0 <= j < i ==> alnum(#[trigger] v@[j]) || v@[j] == '-' || v@[j] == '_',
        decreases v@.len() - i,
    {
        let c = v[i];
        if !(('a' <= c && c <= 'z') || ('A' <= c && c <= 'Z') || ('0' <= c && c <= '9') || c == '-' || c == '_') {
            assert(!(alnum(v@[i as int]) || v@[i as int] == '-' || v@[i as int] == '_'));
            return Err(SlotError::BadName(owned(name)));
        }
        i += 1;
    }
    Ok(())
}

/// Where a new slot's tree goes, or why it cannot: a name that is not a
/// slot's, or a tree already there (`exists`).
pub fn place(dir: &str, name: &str, exists: bool) -> (r: Result<Slot, SlotError>)
    ensures
        !good_name(name@) ==> (r matches Err(SlotError::BadName(n)) && n@ == name@),
        good_name(name@) && exists ==> (r matches Err(SlotError::Exists(n, at)) && n@ == name@
            && at@ == path_join(dir@, name@)),
        good_name(name@) && !exists ==> (r matches Ok(s) && s.name@ == name@ && s.tree@ == path_join(dir@, name@)),
{
    match check_name(name) {
        Ok(()) => {},
        Err(e) => return Err(e),
    }
    let tree = join_path(dir, name);
    if exists {
        return Err(SlotError::Exists(owned(name), tree));
    }
    Ok(Slot { name: owned(name), tree })
}

/// The slot named `name` among those a project has (`slots`, listed from
/// `dir`).
pub fn find(slots: &Vec<Slot>, name: &str, dir: &str) -> (r: Result<Slot, SlotError>)
    ensures
        (exists|i: int| 0 <= i < slots@.len() && #[trigger] slots@[i].name@ == name@) ==> (r matches Ok(s) && exists|i: int|
            0 <= i < slots@.len() && #[trigger] slots@[i].name@ == name@ && s.name@ == slots@[i].name@
                && s.tree@ == slots@[i].tree@),
        !(exists|i: int| 0 <= i < slots@.len() && #[trigger] slots@[i].name@ == name@) ==> (r matches Err(
            SlotError::Unknown(n, under),
        ) && n@ == name@ && under@ == dir@),
{
    let mut i: usize = 0;
    while i < slots.len()
        invariant
            i <= slots@.len(),
            forall|j: int| 0 <= j < i ==> slots@[j].name@ != name@,
        decreases slots@.len() - i,
    {
        if str_eq(slots[i].name.as_str(), name) {
            assert(slots@[i as int].name@ == name@);
            return Ok(Slot { name: owned(slots[i].name.as_str()), tree: owned(slots[i].tree.as_str()) });
        }
        i += 1;
    }
    Err(SlotError::Unknown(owned(name), owned(dir)))
}

/// What removing a slot refuses unless the human forces it: uncommitted
/// work, then commits the repository does not have (`missing` of them on
/// `branch`). Commits only a slot holds are work nobody else holds.
pub fn rm_refusal(name: &str, force: bool, clean: bool, missing: usize, branch: &str, repository: &str) -> (r: Option<SlotError>)
    ensures
        force ==> r is None,
        !force && !clean ==> (r matches Some(SlotError::Dirty(n)) && n@ == name@),
        !force && clean && missing > 0 ==> (r matches Some(SlotError::Unfetched { name: n, branch: b, count, repository: o })
            && n@ == name@ && b@ == branch@ && count == missing && o@ == repository@),
        !force && clean && missing == 0 ==> r is None,
{
    if force {
        return None;
    }
    if !clean {
        return Some(SlotError::Dirty(owned(name)));
    }
    reset_refusal(name, force, missing, branch, repository)
}

/// What resetting a slot refuses unless the human forces it: commits the
/// repository does not have. Uncommitted work is what a reset throws away.
pub fn reset_refusal(name: &str, force: bool, missing: usize, branch: &str, repository: &str) -> (r: Option<SlotError>)
    ensures
        (force || missing == 0) ==> r is None,
        !force && missing > 0 ==> (r matches Some(SlotError::Unfetched { name: n, branch: b, count, repository: o })
            && n@ == name@ && b@ == branch@ && count == missing && o@ == repository@),
{
    if force || missing == 0 {
        None
    } else {
        Some(SlotError::Unfetched { name: owned(name), branch: owned(branch), count: missing, repository: owned(repository) })
    }
}

/// What a reset threw away, for the caller to print.
#[derive(Debug, Clone, PartialEq, Eq)]
pub struct Reset {
    pub slot: Slot,
    /// Whether the tree had uncommitted work.
    pub discarded: bool,
    /// The named volumes that were actually removed.
    pub volumes: Vec<String>,
}

/// Every named volume a slot owns, whichever profile put it there: the
/// proof copy's, the harness's, the cargo cache's, and `more` (one per
/// writable directory a stack declares), each once and in order. Listed
/// here rather than derived from a profile file, which may be gone.
pub fn volumes_of(slot: &Slot, more: &[String]) -> (r: Vec<String>)
    ensures
        strictly_sorted(views(r@)),
        views(r@).to_set() == set![
            "nunki-"@ + slot.name@ + "-proof"@,
            "nunki-"@ + slot.name@ + "-harness"@,
            "nunki-"@ + slot.name@ + "-cargo"@,
        ].union(views(more@).to_set()),
{
    let mut names: Vec<String> = Vec::new();
    names.push(crate::exec::proof_volume(slot.name.as_str()));
    let mut h = owned("nunki-");
    push_str(&mut h, slot.name.as_str());
    push_str(&mut h, "-harness");
    names.push(h);
    let mut c = owned("nunki-");
    push_str(&mut c, slot.name.as_str());
    push_str(&mut c, "-cargo");
    names.push(c);
    let ghost three = views(names@);
    crate::text::extend_strings(&mut names, more, 0);
    proof {
        assert(views(names@) =~= three + views(more@));
        vstd::seq_lib::seq_to_set_distributes_over_add(three, views(more@));
        assert(three.to_set() =~= set![
            "nunki-"@ + slot.name@ + "-proof"@,
            "nunki-"@ + slot.name@ + "-harness"@,
            "nunki-"@ + slot.name@ + "-cargo"@,
        ]) by {
            assert(three =~= seq![
                "nunki-"@ + slot.name@ + "-proof"@,
                "nunki-"@ + slot.name@ + "-harness"@,
                "nunki-"@ + slot.name@ + "-cargo"@,
            ]);
        }
    }
    sorted_unique(names.as_slice())
}

} // verus!
