//! Starting the application before the role that tests or attacks it.
//!
//! Launching the application is no agent's job: `hq` starts it, in the
//! profile of the role that will test or attack it, from a script that
//! belongs to the project. Three places may declare that script, read in
//! this order: the frozen mission header's `run:`, the project
//! configuration's `run:`, and the stack fragment's `run.sh`. `none` at any
//! of them means there is nothing to start.
//!
//! The choice comes from the declarations; the file is read from the
//! slot's tree, at the commit the slot is on. Whether a file is there and
//! executable is the program's to look at: [`to_check`] says which file,
//! and [`resolve`] decides from what was found.

use vstd::prelude::*;
use crate::git::GitError;
use crate::harness::{CommandSpec, Role, SessionId};
use crate::mission::Header;
use crate::project::Project;
use crate::slot::Slot;
use crate::text::{chars_of, has_prefix, join_path, opt_view, owned, path_join, push_str, str_eq, string_of, trim, trimmed, views};

verus! {

/// The launch script a stack fragment ships.
pub const SCRIPT: &'static str = "run.sh";

/// What a declaration says when there is nothing to start.
pub const NOTHING: &'static str = "none";

/// Which of the three declarations decided.
#[derive(Debug, Clone, Copy, PartialEq, Eq, Structural)]
pub enum Declared {
    /// The mission header's `run:`.
    Header,
    /// The project configuration's `run:`.
    Config,
    /// The stack fragment's default.
    Stack,
}

/// Where a declaration was made, as a human finds it.
pub open spec fn spec_where_from(d: Declared) -> Seq<char> {
    match d {
        Declared::Header => "the mission header's `run:`"@,
        Declared::Config => "nunki.yaml's `run:`"@,
        Declared::Stack => "the stack fragment's default"@,
    }
}

impl Declared {
    /// Where the declaration was made, so that an error names the file a
    /// human has to edit.
    pub fn where_from(self) -> (r: &'static str)
        ensures
            r@ == spec_where_from(self),
    {
        match self {
            Declared::Header => "the mission header's `run:`",
            Declared::Config => "nunki.yaml's `run:`",
            Declared::Stack => "the stack fragment's default",
        }
    }
}

/// What starting the application means for a mission.
#[derive(Debug, Clone, PartialEq, Eq)]
pub enum Launch {
    /// Nothing to start.
    Nothing { declared: Declared },
    /// This script, as the container runs it: relative to the tree's root
    /// when the project declared it, absolute under the stack's mount when
    /// it is the stack's default.
    Script { path: String, declared: Declared },
}

/// Why the application could not be started.
#[derive(Debug, Clone, PartialEq, Eq)]
pub enum LaunchError {
    /// A declaration names a script the slot's tree lacks at its head.
    Missing { where_from: String, path: String, head: String },
    /// The stack ships no launch script.
    NoStackScript { stack: String, at: String },
    /// A declared script is not executable.
    NotExecutable { where_from: String, path: String },
    Spawn(String),
    Io(String, String),
    Compose(crate::compose::ComposeError),
    Git(GitError),
}

/// `s` without any run of `p` at its start.
pub open spec fn strip_leading(s: Seq<char>, p: Seq<char>) -> Seq<char>
    decreases s.len(),
{
    if p.len() > 0 && has_prefix(s, p) { strip_leading(s.subrange(p.len() as int, s.len() as int), p) } else { s }
}

/// What a script declaration names, as a path in the tree: trimmed, with
/// any leading `./` taken off.
pub open spec fn declared_path(said: Seq<char>) -> Seq<char> {
    strip_leading(trim(said), "./"@)
}

/// What must be looked at before the application can be started.
#[derive(Debug, Clone, PartialEq, Eq)]
pub enum ToCheck {
    /// Nothing: the declaration says there is nothing to start.
    Nothing { declared: Declared },
    /// The stack's default script, on the host.
    StackScript { on_host: String },
    /// A script the project declared, in the slot's tree.
    TreeScript { declared: Declared, path: String, on_host: String },
}

/// The declaration that decides, and what it says: the mission header's
/// first, then the project's; `None` when neither declares anything.
pub open spec fn declaration(header_run: Option<Seq<char>>, config_run: Option<Seq<char>>) -> Option<(Declared, Seq<char>)> {
    match header_run {
        Some(r) => Some((Declared::Header, r)),
        None => match config_run {
            Some(r) => Some((Declared::Config, r)),
            None => None,
        },
    }
}

/// `s` without any run of `./` at its start.
fn strip_dot_slash(s: &str) -> (r: String)
    ensures
        r@ == strip_leading(s@, "./"@),
{
    let v = chars_of(s);
    let mut i: usize = 0;
    proof { reveal_strlit("./"); }
    assert(v@.subrange(0, v@.len() as int) =~= s@);
    while i < v.len() && v.len() - i >= 2 && v[i] == '.' && v[i + 1] == '/'
        invariant
            i <= v@.len(),
            v@ == s@,
            strip_leading(v@.subrange(i as int, v@.len() as int), "./"@) == strip_leading(s@, "./"@),
        decreases v@.len() - i,
    {
        proof {
            reveal_strlit("./");
            let rest = v@.subrange(i as int, v@.len() as int);
            assert(rest.subrange(0, 2) =~= "./"@);
            assert(rest.subrange(2, rest.len() as int) =~= v@.subrange(i + 2, v@.len() as int));
        }
        i += 2;
    }
    proof {
        let rest = v@.subrange(i as int, v@.len() as int);
        if has_prefix(rest, "./"@) {
            assert(rest.subrange(0, 2)[0] == rest[0]);
            assert(rest.subrange(0, 2)[1] == rest[1]);
            assert(false);
        }
    }
    string_of(v.as_slice(), i, v.len())
}

/// What must be looked at before the application of `slot` can be
/// started for a mission: the script a declaration names, in the tree, or
/// the stack's default on the host, `stack` naming the fragment.
pub fn to_check(project: &Project, slot: &Slot, stack: &str, header: &Header) -> (r: ToCheck)
    ensures
        match declaration(opt_view(header.run), opt_view(project.config.run)) {
            None => r matches ToCheck::StackScript { on_host }
                && on_host@ == path_join(path_join(path_join(project.home@, crate::project::STACKS_DIR@), stack@), SCRIPT@),
            Some((d, said)) => if trim(said) == NOTHING@ {
                r == ToCheck::Nothing { declared: d }
            } else {
                r matches ToCheck::TreeScript { declared, path, on_host } && declared == d
                    && path@ == declared_path(said) && on_host@ == path_join(slot.tree@, declared_path(said))
            },
        },
{
    let (declared, said) = match &header.run {
        Some(run) => (Declared::Header, run),
        None => match &project.config.run {
            Some(run) => (Declared::Config, run),
            None => {
                let fragment = project.fragment(stack);
                return ToCheck::StackScript { on_host: join_path(fragment.as_str(), SCRIPT) };
            },
        },
    };
    let t = trimmed(said.as_str());
    if str_eq(t.as_str(), NOTHING) {
        return ToCheck::Nothing { declared };
    }
    let path = strip_dot_slash(t.as_str());
    let on_host = join_path(slot.tree.as_str(), path.as_str());
    ToCheck::TreeScript { declared, path, on_host }
}

/// What a check decides, from what was found: the file there or not,
/// executable or not, and the tree's head for the error that names it.
pub open spec fn resolved(c: ToCheck, stack: Seq<char>, stack_at: Seq<char>, is_file: bool, executable: bool,
    head: Result<String, GitError>, r: Result<Launch, LaunchError>) -> bool
{
    match c {
        ToCheck::Nothing { declared } => r == Ok::<Launch, LaunchError>(Launch::Nothing { declared }),
        ToCheck::StackScript { on_host } => if !is_file {
            r matches Err(LaunchError::NoStackScript { stack: s, at }) && s@ == stack && at@ == on_host@
        } else if !executable {
            r matches Err(LaunchError::NotExecutable { where_from, path })
                && where_from@ == spec_where_from(Declared::Stack) && path@ == on_host@
        } else {
            r matches Ok(Launch::Script { path, declared }) && declared == Declared::Stack
                && path@ == stack_at + "/"@ + SCRIPT@
        },
        ToCheck::TreeScript { declared, path, on_host } => if !is_file {
            match head {
                Ok(h) => r matches Err(LaunchError::Missing { where_from, path: p, head: hh })
                    && where_from@ == spec_where_from(declared) && p@ == path@ && hh@ == h@,
                Err(e) => r == Err::<Launch, LaunchError>(LaunchError::Git(e)),
            }
        } else if !executable {
            r matches Err(LaunchError::NotExecutable { where_from, path: p })
                && where_from@ == spec_where_from(declared) && p@ == path@
        } else {
            r matches Ok(Launch::Script { path: p, declared: d }) && d == declared && p@ == path@
        },
    }
}

/// Decide what starting the application means. The check is made before
/// anything is spawned, so that a failure names the declaration and the
/// commit instead of surfacing as a container that exited 127.
pub fn resolve(check: ToCheck, stack: &str, stack_at: &str, is_file: bool, executable: bool,
    head: Result<String, GitError>) -> (r: Result<Launch, LaunchError>)
    ensures
        resolved(check, stack@, stack_at@, is_file, executable, head, r),
{
    match check {
        ToCheck::Nothing { declared } => Ok(Launch::Nothing { declared }),
        ToCheck::StackScript { on_host } => {
            if !is_file {
                return Err(LaunchError::NoStackScript { stack: owned(stack), at: on_host });
            }
            if !executable {
                return Err(LaunchError::NotExecutable { where_from: owned(Declared::Stack.where_from()), path: on_host });
            }
            let mut path = owned(stack_at);
            push_str(&mut path, "/");
            push_str(&mut path, SCRIPT);
            Ok(Launch::Script { path, declared: Declared::Stack })
        },
        ToCheck::TreeScript { declared, path, on_host } => {
            if !is_file {
                return match head {
                    Ok(h) => Err(LaunchError::Missing { where_from: owned(declared.where_from()), path, head: h }),
                    Err(e) => Err(LaunchError::Git(e)),
                };
            }
            if !executable {
                return Err(LaunchError::NotExecutable { where_from: owned(declared.where_from()), path });
            }
            Ok(Launch::Script { path, declared })
        },
    }
}

/// The application's session identifier for a role.
pub open spec fn app_session(role: Role) -> Seq<char> {
    "nunki-app-"@ + crate::role::spec_slug(role)
}

/// How the application is started: its session, its log, and the command
/// the agent's container runs.
#[derive(Debug, Clone, PartialEq, Eq)]
pub struct Start {
    pub session: SessionId,
    pub log: String,
    pub command: CommandSpec,
}

/// How to start the application for `role`, or `None` when there is
/// nothing to start. The session is passed to the script as its argument,
/// so that the process can be found again by its command line; the script
/// runs in the tree, by its absolute path or relative to the tree.
pub fn start_plan(role: Role, runs_dir: &str, launch: &Launch) -> (r: Option<Start>)
    ensures
        match *launch {
            Launch::Nothing { .. } => r is None,
            Launch::Script { path, .. } => r matches Some(s)
                && s.session.0@ == app_session(role)
                && s.log@ == path_join(runs_dir@, app_session(role) + ".log"@)
                && s.command.program@ == (if path@.len() > 0 && path@[0] == '/' { path@ } else { "./"@ + path@ })
                && views(s.command.args@) == seq![app_session(role)]
                && s.command.cwd@ == crate::run::TREE_AT@
                && s.command.env@.len() == 0,
        },
{
    match launch {
        Launch::Nothing { .. } => None,
        Launch::Script { path, .. } => {
            let mut session = owned("nunki-app-");
            push_str(&mut session, crate::role::slug(role));
            let mut file = session.clone();
            push_str(&mut file, ".log");
            let log = join_path(runs_dir, file.as_str());
            let v = chars_of(path.as_str());
            let program = if v.len() > 0 && v[0] == '/' {
                path.clone()
            } else {
                let mut p = owned("./");
                push_str(&mut p, path.as_str());
                p
            };
            let mut args: Vec<String> = Vec::new();
            args.push(session.clone());
            assert(views(args@) =~= seq![session@]);
            Some(Start {
                session: SessionId(session),
                log,
                command: CommandSpec { program, args, cwd: owned(crate::run::TREE_AT), env: Vec::new() },
            })
        },
    }
}

/// The header's declaration wins over the project's, which wins over the
/// stack's default script; and a declaration of `none` starts nothing,
/// whatever the stack's fragment and the tree hold.
pub proof fn law_declarations(header_run: Seq<char>, config_run: Option<Seq<char>>, declared: Declared, stack: Seq<char>,
    stack_at: Seq<char>, is_file: bool, executable: bool, head: Result<String, GitError>, r: Result<Launch, LaunchError>)
    requires
        resolved(ToCheck::Nothing { declared }, stack, stack_at, is_file, executable, head, r),
    ensures
        declaration(Some(header_run), config_run) == Some((Declared::Header, header_run)),
        config_run matches Some(c) ==> declaration(None, config_run) == Some((Declared::Config, c)),
        declaration(None, None) is None,
        r == Ok::<Launch, LaunchError>(Launch::Nothing { declared }),
{
}

} // verus!
