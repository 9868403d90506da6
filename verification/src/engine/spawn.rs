//! Running the harness inside its container.
//!
//! A process signalled on the host is the engine's client, not the agent:
//! so the run records its pid inside the container, and everything asked of
//! it afterwards — is it alive, stop it — is asked from inside too. The
//! commands and the checks are built here; the program around this crate
//! runs them.

use vstd::prelude::*;
use crate::engine::{ExecOutput, Liveness};
use crate::harness::{CommandSpec, Spawned};
use crate::text::{
    decimal, owned, path_stem, push_str, spec_decimal, stem_of, str_contains, trim, trimmed, views,
};

verus! {

/// What the in-container check prints when the run is there.
pub open spec fn is_running_word() -> Seq<char> { "hq-run-running"@ }

/// What it prints when the run is not.
pub open spec fn has_ended_word() -> Seq<char> { "hq-run-ended"@ }

/// Where the agent may write its own runtime files: a tmpfs of its own.
pub const RUN_DIR: &'static str = "/run/hq";

/// Whether a run is there, or an admission that the question could not be
/// put.
#[derive(Debug, Clone, PartialEq, Eq)]
pub enum Presence {
    Running,
    /// Frozen by a human: in flight, and making no progress on purpose.
    Paused,
    Ended,
    /// The container went away and took the run with it.
    Vanished(String),
    /// The question could not be put: nothing is known either way.
    Unknown(String),
}

/// The run in a service's container: where the profile file is, which
/// Compose project and service, and what the run's command line carries.
#[derive(Debug, Clone, PartialEq, Eq)]
pub struct ContainerSpawner {
    /// What the harness's command line must still contain for the recorded
    /// pid to be the run and not a recycled number.
    pub identity: Option<String>,
    /// The profile file currently up, as the engine reads it.
    pub file: String,
    pub project: String,
    pub service: String,
}

/// `s` shortened to its first twelve bytes when they end on a character, as
/// every engine prints a container id.
pub open spec fn short_id(s: Seq<char>) -> Seq<char> {
    if crate::text::utf8_len(s) >= 12 && crate::text::bytes_end_on_char(s, 12) {
        crate::text::take_bytes(s, 12)
    } else {
        s
    }
}

/// The engine options that carry an environment: `-e KEY=VALUE` for each.
pub open spec fn env_options(env: Seq<(String, String)>) -> Seq<Seq<char>>
    decreases env.len(),
{
    if env.len() == 0 {
        Seq::empty()
    } else {
        env_options(env.drop_last()) + seq!["-e"@, env.last().0@ + "="@ + env.last().1@]
    }
}

impl ContainerSpawner {
    pub fn new(file: String, project: &str, service: &str) -> (c: ContainerSpawner)
        ensures
            c.file == file,
            c.project@ == project@,
            c.service@ == service@,
            c.identity is None,
    {
        ContainerSpawner { identity: None, file, project: owned(project), service: owned(service) }
    }

    /// Say what the run's command line carries — its session id — so that
    /// liveness can tell the run from whatever else has taken its pid.
    pub fn identified_by(self, session: &str) -> (c: ContainerSpawner)
        ensures
            c.identity matches Some(s) && s@ == session@,
            c.file == self.file,
            c.project == self.project,
            c.service == self.service,
    {
        ContainerSpawner { identity: Some(owned(session)), ..self }
    }

    /// The pid file a run publishes, named after its log.
    pub open spec fn spec_pid_file(log: Seq<char>) -> Seq<char> {
        "/run/hq/"@ + match path_stem(log) { Some(s) => s, None => "run"@ } + ".pid"@
    }

    /// The pid file a run publishes, named after its log — which is named
    /// after the session.
    pub fn pid_file(log: &str) -> (r: String)
        ensures
            r@ == Self::spec_pid_file(log@),
    {
        let mut r = owned("/run/hq/");
        match stem_of(log) {
            Some(s) => push_str(&mut r, s.as_str()),
            None => push_str(&mut r, "run"),
        }
        push_str(&mut r, ".pid");
        r
    }

    /// The engine options and the command that run `cmd` in the container:
    /// the working directory and the environment as options, then a wrapper
    /// that publishes the in-container pid and `exec`s, so the pid it wrote
    /// is the harness's own. Arguments travel as arguments.
    pub fn command(&self, cmd: &CommandSpec, log: &str) -> (r: (Vec<String>, Vec<String>))
        ensures
            views(r.0@) == seq!["-w"@, cmd.cwd@] + env_options(cmd.env@),
            views(r.1@) == seq!["sh"@, "-c"@, "echo $$ > \"$0\"; exec \"$@\""@,
                Self::spec_pid_file(log@), cmd.program@] + views(cmd.args@),
    {
        let mut options: Vec<String> = Vec::new();
        options.push(owned("-w"));
        options.push(cmd.cwd.clone());
        let mut i: usize = 0;
        while i < cmd.env.len()
            invariant
                i <= cmd.env@.len(),
                views(options@) == seq!["-w"@, cmd.cwd@] + env_options(cmd.env@.subrange(0, i as int)),
            decreases cmd.env@.len() - i,
        {
            let mut pair = cmd.env[i].0.clone();
            push_str(&mut pair, "=");
            push_str(&mut pair, cmd.env[i].1.as_str());
            let ghost before = views(options@);
            options.push(owned("-e"));
            options.push(pair);
            proof {
                assert(cmd.env@.subrange(0, i + 1).drop_last() =~= cmd.env@.subrange(0, i as int));
                assert(views(options@) =~= before + seq!["-e"@, cmd.env@[i as int].0@ + "="@ + cmd.env@[i as int].1@]);
            }
            i += 1;
        }
        assert(cmd.env@.subrange(0, i as int) =~= cmd.env@);
        let mut argv: Vec<String> = Vec::new();
        argv.push(owned("sh"));
        argv.push(owned("-c"));
        argv.push(owned("echo $$ > \"$0\"; exec \"$@\""));
        argv.push(Self::pid_file(log));
        argv.push(cmd.program.clone());
        let ghost mid = views(argv@);
        crate::text::extend_strings(&mut argv, cmd.args.as_slice(), 0);
        assert(views(cmd.args@).subrange(0, cmd.args@.len() as int) =~= views(cmd.args@));
        (options, argv)
    }

    /// The whole command that starts `cmd` in the service's container
    /// without waiting: the engine's `exec -T`, the working directory and
    /// the environment as options, the service, then the wrapper that
    /// publishes the pid and `exec`s the run.
    pub fn spawn_command(&self, docker: &crate::engine::docker::Docker, cmd: &CommandSpec, log: &str) -> (c: CommandSpec)
        ensures
            c.program@ == if docker.config.compose@.len() > 0 { docker.config.compose@[0]@ } else { "docker"@ },
            views(c.args@) == crate::engine::docker::compose_args(views(docker.config.compose@), self.file@, self.project@,
                seq!["exec"@, "-T"@] + (seq!["-w"@, cmd.cwd@] + env_options(cmd.env@)) + seq![self.service@]
                + (seq!["sh"@, "-c"@, "echo $$ > \"$0\"; exec \"$@\""@, Self::spec_pid_file(log@), cmd.program@]
                + views(cmd.args@))),
            c.cwd@ == match crate::text::path_parent(self.file@) { Some(d) => d, None => "."@ },
    {
        let (options, argv) = self.command(cmd, log);
        docker.detached_command(self.file.as_str(), self.project.as_str(), self.service.as_str(), options.as_slice(),
            argv.as_slice())
    }

    /// The shell check that says whether `pid` is still the run: its command
    /// line still carries the run's identity when one is known, or the
    /// process merely exists when none is. It prints a word, for an exit
    /// code cannot tell "not there" from "could not look".
    pub open spec fn spec_check(&self, pid: u32) -> Seq<char> {
        match self.identity {
            Some(session) => "if tr '\\0' ' ' < /proc/"@ + spec_decimal(pid as nat)
                + "/cmdline 2>/dev/null | grep -q -- "@ + session@ + "; then echo "@
                + is_running_word() + "; else echo "@ + has_ended_word() + "; fi"@,
            None => "if kill -0 "@ + spec_decimal(pid as nat) + " 2>/dev/null; then echo "@
                + is_running_word() + "; else echo "@ + has_ended_word() + "; fi"@,
        }
    }

    /// The shell check that says whether `pid` is still the run.
    pub fn check(&self, pid: u32) -> (r: String)
        ensures
            r@ == self.spec_check(pid),
    {
        match &self.identity {
            Some(session) => {
                let mut r = owned("if tr '\\0' ' ' < /proc/");
                push_str(&mut r, decimal(pid as u64).as_str());
                push_str(&mut r, "/cmdline 2>/dev/null | grep -q -- ");
                push_str(&mut r, session.as_str());
                push_str(&mut r, "; then echo ");
                push_str(&mut r, "hq-run-running");
                push_str(&mut r, "; else echo ");
                push_str(&mut r, "hq-run-ended");
                push_str(&mut r, "; fi");
                r
            },
            None => {
                let mut r = owned("if kill -0 ");
                push_str(&mut r, decimal(pid as u64).as_str());
                push_str(&mut r, " 2>/dev/null; then echo ");
                push_str(&mut r, "hq-run-running");
                push_str(&mut r, "; else echo ");
                push_str(&mut r, "hq-run-ended");
                push_str(&mut r, "; fi");
                r
            },
        }
    }
}

/// A container id short enough to read.
pub fn short(container: &str) -> (r: &str)
    ensures
        r@ == short_id(container@),
{
    match crate::text::get_prefix_bytes(container, 12) {
        Some(p) => p,
        None => container,
    }
}

/// What is known before anything is asked: a run without a pid or without
/// a container cannot be asked about.
pub open spec fn spec_presence_unaskable(spawned: Spawned) -> Option<Seq<char>> {
    if spawned.pid is None {
        Some("the run recorded no process id, so nothing can be asked about it"@)
    } else if spawned.container@.len() == 0 {
        Some("the run recorded no container, so the engine cannot be asked about it"@)
    } else {
        None
    }
}

/// What the engine's word on the container says of the run, when it says
/// enough: `None` when the container runs and the run itself must be asked.
pub open spec fn spec_presence_of_container(container: Seq<char>, liveness: Result<Liveness, Seq<char>>) -> Option<(u8, Seq<char>)> {
    match liveness {
        Ok(Liveness::Running) => None,
        Ok(Liveness::Paused) => Some((1, Seq::empty())),
        Ok(Liveness::Exited(code)) => Some((2, "container "@ + short_id(container) + " exited ("@
            + crate::text::spec_signed(code as int) + ") and took the run with it"@)),
        Ok(Liveness::Gone) => Some((2, "the engine no longer knows container "@ + short_id(container))),
        Err(e) => Some((3, "the engine did not answer: "@ + e)),
    }
}

/// Whether `p` is the presence that `(kind, why)` names: 1 paused, 2
/// vanished, 3 unknown.
pub open spec fn presence_is(p: Presence, kind: u8, why: Seq<char>) -> bool {
    match p {
        Presence::Paused => kind == 1,
        Presence::Vanished(w) => kind == 2 && w@ == why,
        Presence::Unknown(w) => kind == 3 && w@ == why,
        _ => false,
    }
}

impl ContainerSpawner {
    /// The presence of a run that cannot be asked about, if it cannot.
    pub fn unaskable(spawned: &Spawned) -> (r: Option<Presence>)
        ensures
            match (r, spec_presence_unaskable(*spawned)) {
                (Some(Presence::Unknown(w)), Some(why)) => w@ == why,
                (None, None) => true,
                _ => false,
            },
    {
        if spawned.pid.is_none() {
            return Some(Presence::Unknown(owned("the run recorded no process id, so nothing can be asked about it")));
        }
        if spawned.container.as_str().is_empty() {
            return Some(Presence::Unknown(owned("the run recorded no container, so the engine cannot be asked about it")));
        }
        None
    }

    /// What the engine's answer about the run's container says, when it is
    /// enough: the engine is the authority, asked first. `None` means the
    /// container runs, and the run itself must be asked.
    pub fn of_container(container: &str, liveness: Result<Liveness, String>) -> (r: Option<Presence>)
        ensures
            match (r, spec_presence_of_container(container@, match liveness { Ok(l) => Ok(l), Err(e) => Err(e@) })) {
                (Some(p), Some((kind, why))) => presence_is(p, kind, why),
                (None, None) => true,
                _ => false,
            },
    {
        match liveness {
            Ok(Liveness::Running) => None,
            Ok(Liveness::Paused) => Some(Presence::Paused),
            Ok(Liveness::Exited(code)) => {
                let mut w = owned("container ");
                push_str(&mut w, short(container));
                push_str(&mut w, " exited (");
                push_str(&mut w, crate::text::signed_decimal(code).as_str());
                push_str(&mut w, ") and took the run with it");
                Some(Presence::Vanished(w))
            },
            Ok(Liveness::Gone) => {
                let mut w = owned("the engine no longer knows container ");
                push_str(&mut w, short(container));
                Some(Presence::Vanished(w))
            },
            Err(e) => {
                let mut w = owned("the engine did not answer: ");
                push_str(&mut w, e.as_str());
                Some(Presence::Unknown(w))
            },
        }
    }

    /// What the in-container check said: the word it printed, or an
    /// admission that it did not run.
    pub fn of_check(out: Result<ExecOutput, String>) -> (r: Presence)
        ensures
            match out {
                Err(e) => r matches Presence::Unknown(w) && w@ == "the engine did not answer: "@ + e@,
                Ok(o) => if crate::text::contains_text(o.stdout@, is_running_word()) {
                    r == Presence::Running
                } else if crate::text::contains_text(o.stdout@, has_ended_word()) {
                    r == Presence::Ended
                } else {
                    r matches Presence::Unknown(w) && w@ == "the check did not run in the container ("@
                        + crate::text::spec_signed(o.status as int) + "): "@ + trim(o.stderr@)
                },
            },
    {
        match out {
            Err(e) => {
                let mut w = owned("the engine did not answer: ");
                push_str(&mut w, e.as_str());
                Presence::Unknown(w)
            },
            Ok(o) => {
                if str_contains(o.stdout.as_str(), "hq-run-running") {
                    Presence::Running
                } else if str_contains(o.stdout.as_str(), "hq-run-ended") {
                    Presence::Ended
                } else {
                    let mut w = owned("the check did not run in the container (");
                    push_str(&mut w, crate::text::signed_decimal(o.status as i64).as_str());
                    push_str(&mut w, "): ");
                    push_str(&mut w, trimmed(o.stderr.as_str()).as_str());
                    Presence::Unknown(w)
                }
            },
        }
    }
}

} // verus!
