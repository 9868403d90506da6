//! `init`: make an existing repository orchestrable.
//!
//! Three rules make the verb replayable: it creates what is absent, it
//! never overwrites a file a human is meant to edit (it deposits its own
//! version beside it), and it keeps no manifest. Running it twice changes
//! nothing the second time. Looking at the disk and writing to it are the
//! program's; this module decides, from what is there, what is done.

use vstd::prelude::*;
use crate::text::{contains_text, debug_quoted, join, join_path, owned, path_join, push_str, quoted, str_contains, str_eq, views};

verus! {

/// What `init` did to one path, or deliberately did not.
#[derive(Debug, Clone, PartialEq, Eq)]
pub enum Action {
    Created(String),
    /// It exists and belongs to a human; here is why it was left alone.
    LeftAlone(String, String),
    /// It exists and differs from what would be written, so the suggestion
    /// went next to it under this name.
    DepositedBeside { kept: String, suggestion: String },
}

/// An action, as the verb reports it.
pub open spec fn spec_render(a: Action) -> Seq<char> {
    match a {
        Action::Created(p) => "created  "@ + p@,
        Action::LeftAlone(p, why) => "kept     "@ + p@ + " — "@ + why@,
        Action::DepositedBeside { kept, suggestion } =>
            "kept     "@ + kept@ + " — its replacement is beside it, at "@ + suggestion@,
    }
}

impl Action {
    /// The line that reports the action.
    pub fn render(&self) -> (r: String)
        ensures
            r@ == spec_render(*self),
    {
        match self {
            Action::Created(p) => {
                let mut r = owned("created  ");
                push_str(&mut r, p.as_str());
                r
            },
            Action::LeftAlone(p, why) => {
                let mut r = owned("kept     ");
                push_str(&mut r, p.as_str());
                push_str(&mut r, " — ");
                push_str(&mut r, why.as_str());
                r
            },
            Action::DepositedBeside { kept, suggestion } => {
                let mut r = owned("kept     ");
                push_str(&mut r, kept.as_str());
                push_str(&mut r, " — its replacement is beside it, at ");
                push_str(&mut r, suggestion.as_str());
                r
            },
        }
    }
}

/// Why `init` refused.
#[derive(Debug, Clone, PartialEq, Eq)]
pub enum InitError {
    NotADirectory(String),
    Io(String, String),
    /// A stack no fragment is shipped for, and the stacks that are.
    UnknownStack(String, String),
}

/// What an `init` error says.
pub open spec fn init_error_message(e: InitError) -> Seq<char> {
    match e {
        InitError::NotADirectory(p) => p@ + " is not a directory"@,
        InitError::Io(p, why) => p@ + ": "@ + why@,
        InitError::UnknownStack(s, known) => "no stack fragment for "@ + debug_quoted(s@) + "; known: "@ + known@,
    }
}

impl InitError {
    /// What the error says.
    pub fn message(&self) -> (r: String)
        ensures
            r@ == init_error_message(*self),
    {
        match self {
            InitError::NotADirectory(p) => {
                let mut r = p.clone();
                push_str(&mut r, " is not a directory");
                r
            },
            InitError::Io(p, why) => {
                let mut r = p.clone();
                push_str(&mut r, ": ");
                push_str(&mut r, why.as_str());
                r
            },
            InitError::UnknownStack(s, known) => {
                let mut r = owned("no stack fragment for ");
                push_str(&mut r, quoted(s.as_str()).as_str());
                push_str(&mut r, "; known: ");
                push_str(&mut r, known.as_str());
                r
            },
        }
    }
}

/// The stacks a fragment is shipped for.
pub open spec fn known_stacks() -> Seq<Seq<char>> {
    seq!["rust"@]
}

/// The first stack asked for that no fragment is shipped for.
pub open spec fn first_unknown(stacks: Seq<Seq<char>>) -> Option<Seq<char>>
    decreases stacks.len(),
{
    if stacks.len() == 0 {
        None
    } else {
        match first_unknown(stacks.drop_last()) {
            Some(s) => Some(s),
            None => if known_stacks().contains(stacks.last()) { None } else { Some(stacks.last()) },
        }
    }
}

/// Refuse a stack no fragment is shipped for, naming the ones that are,
/// rather than leave an empty directory that reads as configured.
pub fn check_stacks(stacks: &[String]) -> (r: Result<(), InitError>)
    ensures
        match first_unknown(views(stacks@)) {
            None => r is Ok,
            Some(s) => r matches Err(InitError::UnknownStack(n, known))
                && n@ == s && known@ == join(known_stacks(), ", "@),
        },
{
    let mut i: usize = 0;
    while i < stacks.len()
        invariant
            i <= stacks@.len(),
            first_unknown(views(stacks@).subrange(0, i as int)) is None,
        decreases stacks@.len() - i,
    {
        assert(views(stacks@).subrange(0, i + 1).drop_last() =~= views(stacks@).subrange(0, i as int));
        assert(views(stacks@).subrange(0, i + 1).last() == stacks@[i as int]@);
        if !str_eq(stacks[i].as_str(), "rust") {
            proof {
                if known_stacks().contains(stacks@[i as int]@) {
                    let k = choose|k: int| 0 <= k < known_stacks().len() && known_stacks()[k] == stacks@[i as int]@;
                    assert(k == 0);
                }
                lemma_first_unknown_stays(views(stacks@), i + 1);
            }
            let known: Vec<String> = vec![owned("rust")];
            assert(views(known@) =~= known_stacks());
            return Err(InitError::UnknownStack(stacks[i].clone(), crate::text::join_strings(known.as_slice(), ", ")));
        }
        proof {
            assert(known_stacks()[0] == stacks@[i as int]@);
        }
        i += 1;
    }
    assert(views(stacks@).subrange(0, stacks@.len() as int) =~= views(stacks@));
    Ok(())
}

/// Once a prefix has an unknown stack, every longer prefix names the same.
proof fn lemma_first_unknown_stays(s: Seq<Seq<char>>, k: int)
    requires
        0 <= k <= s.len(),
        first_unknown(s.subrange(0, k)) is Some,
    ensures
        first_unknown(s) == first_unknown(s.subrange(0, k)),
    decreases s.len() - k,
{
    if k < s.len() {
        assert(s.subrange(0, k + 1).drop_last() =~= s.subrange(0, k));
        lemma_first_unknown_stays(s, k + 1);
    } else {
        assert(s.subrange(0, k) =~= s);
    }
}

/// Why a file a human edits is left alone.
pub open spec fn never_overwritten() -> Seq<char> {
    "it exists, and nunki never overwrites a file a human edits"@
}

/// What becomes of a file `init` writes only when it is absent: created,
/// or left alone because it exists.
pub fn if_absent(root: &str, name: &str, exists: bool) -> (a: Action)
    ensures
        exists ==> (a matches Action::LeftAlone(p, why) && p@ == path_join(root@, name@) && why@ == never_overwritten()),
        !exists ==> (a matches Action::Created(p) && p@ == path_join(root@, name@)),
{
    let path = join_path(root, name);
    if exists {
        Action::LeftAlone(path, owned("it exists, and nunki never overwrites a file a human edits"))
    } else {
        Action::Created(path)
    }
}

/// What becomes of one file of a stack fragment: created, or left alone
/// because a fragment belongs to the project once written.
pub fn fragment_file(dir: &str, name: &str, exists: bool) -> (a: Action)
    ensures
        exists ==> (a matches Action::LeftAlone(p, why) && p@ == path_join(dir@, name@)
            && why@ == "a stack fragment belongs to the project"@),
        !exists ==> (a matches Action::Created(p) && p@ == path_join(dir@, name@)),
{
    let path = join_path(dir, name);
    if exists {
        Action::LeftAlone(path, owned("a stack fragment belongs to the project"))
    } else {
        Action::Created(path)
    }
}

/// The `.gitattributes` `init` writes: line endings pinned to LF, whatever
/// the machine that writes a file.
pub const GITATTRIBUTES: &'static str = "# LF everywhere, whatever the machine that writes it.\n* text=auto eol=lf\n";

/// What `init` does with `.gitattributes`, from the text of the one that
/// exists, if one does: absent, it is written; present and pinning LF, it
/// is left alone; present and not pinning LF, the suggestion goes beside
/// it, under `.gitattributes.nunki`. The second value says whether the
/// suggestion is to be written, which it is not when one is already there.
pub fn gitattributes(root: &str, existing: Option<&str>, suggestion_exists: bool) -> (r: (Action, bool))
    ensures
        match existing {
            None => r.0 matches Action::Created(p) && p@ == path_join(root@, ".gitattributes"@) && !r.1,
            Some(t) => if contains_text(t@, "eol=lf"@) {
                r.0 matches Action::LeftAlone(p, why) && p@ == path_join(root@, ".gitattributes"@)
                    && why@ == "it already pins LF"@ && !r.1
            } else {
                r.0 matches Action::DepositedBeside { kept, suggestion }
                    && kept@ == path_join(root@, ".gitattributes"@)
                    && suggestion@ == path_join(root@, ".gitattributes.nunki"@)
                    && r.1 == !suggestion_exists
            },
        },
{
    let path = join_path(root, ".gitattributes");
    match existing {
        None => (Action::Created(path), false),
        Some(t) => if str_contains(t, "eol=lf") {
            (Action::LeftAlone(path, owned("it already pins LF")), false)
        } else {
            (Action::DepositedBeside { kept: path, suggestion: join_path(root, ".gitattributes.nunki") }, !suggestion_exists)
        },
    }
}


/// `init` run twice changes nothing the second time, `.gitattributes`
/// included: the file it writes pins LF, so the next run leaves it alone,
/// and writes no suggestion beside it.
pub proof fn law_gitattributes_settle()
    ensures
        contains_text(GITATTRIBUTES@, "eol=lf"@),
{
    reveal_strlit("# LF everywhere, whatever the machine that writes it.\n* text=auto eol=lf\n");
    reveal_strlit("eol=lf");
    assert(GITATTRIBUTES@.subrange(66, 72) =~= "eol=lf"@);
    assert("eol=lf"@.len() == 6);
    assert(GITATTRIBUTES@.subrange(66, 66 + "eol=lf"@.len() as int) == "eol=lf"@);
}

} // verus!
