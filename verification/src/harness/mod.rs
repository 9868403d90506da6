//! The harness boundary: what a run is asked to do, how it ended, and the
//! command line that starts it.
//!
//! A harness is the coding agent's runtime. `hq` holds no harness itself:
//! it builds the command a run needs as plain data, and the program around
//! this crate starts it. Every path here is a string: the tree and the
//! mission folder as the container sees them, the log as the host sees it.

pub mod claude_code;
pub mod fake;

use vstd::prelude::*;
use crate::text::views;

verus! {

/// The three agent roles. The HQ and the human are not roles a harness runs.
#[derive(Debug, Clone, Copy, PartialEq, Eq, Hash, Structural)]
pub enum Role {
    Coder,
    Integrator,
    Security,
}

/// Where a run works, as the container sees it.
#[derive(Debug, Clone, PartialEq, Eq)]
pub struct Workspace {
    /// The slot's working tree inside the container.
    pub tree: String,
    /// The mission folder inside the container.
    pub mission_dir: String,
}

/// A harness session identifier, chosen by `hq` and imposed on the harness.
#[derive(Debug, Clone, PartialEq, Eq, Hash)]
pub struct SessionId(pub String);

/// What a run is asked to do: one lot, or a retry of one.
#[derive(Debug, Clone, PartialEq, Eq)]
pub struct RunRequest {
    pub role: Role,
    pub workspace: Workspace,
    /// Identifier of the lot this run works on.
    pub lot: String,
    /// Which attempt this is for that lot, starting at 1.
    pub attempt: u32,
    pub session: SessionId,
    /// Whether `session` already exists on the harness side.
    pub resume: bool,
    /// Where the structured output is written, as the host sees it.
    pub runs_dir: String,
}

/// Handle on a launched run, persisted so a restarted `hq` can find it.
#[derive(Debug, Clone, PartialEq, Eq)]
pub struct RunHandle {
    pub session: SessionId,
    /// Container the run lives in; empty for a local run.
    pub container: String,
    /// Process id of the harness, when known.
    pub pid: Option<u32>,
    /// Where the structured output is written, as the host sees it.
    pub log: String,
}

/// Why a harness, and not the mission, stopped a run.
#[derive(Debug, Clone, PartialEq, Eq)]
pub struct Fault {
    /// What the harness said.
    pub why: String,
    /// An authentication failure: no wait mends it.
    pub authentication: bool,
}

impl Fault {
    /// A fault that waiting may mend: quota, network, a crash.
    pub fn transient(why: String) -> (f: Fault)
        ensures
            f.why == why,
            !f.authentication,
    {
        Fault { why, authentication: false }
    }
}

/// What a run consumed, in tokens.
#[derive(Debug, Clone, Copy, Default, PartialEq, Eq)]
pub struct Usage {
    pub input_tokens: u64,
    pub output_tokens: u64,
}

/// Why a run ended. A harness failure is replayed and consumes neither an
/// attempt nor a volet; a mission failure does.
#[derive(Debug, Clone, PartialEq, Eq)]
pub enum Outcome {
    /// The run ended on its own.
    Finished(Usage),
    /// Quota, expired token, network, harness crash.
    HarnessFailure(Fault),
    /// Stopped by `hq`, or left without honouring the run contract.
    MissionFailure(String),
}

impl Outcome {
    /// A copy of this outcome.
    pub fn copied(&self) -> (r: Outcome)
        ensures
            r == *self,
    {
        match self {
            Outcome::Finished(u) => Outcome::Finished(*u),
            Outcome::HarnessFailure(f) => Outcome::HarnessFailure(Fault { why: f.why.clone(), authentication: f.authentication }),
            Outcome::MissionFailure(m) => Outcome::MissionFailure(m.clone()),
        }
    }
}

/// Signals a liveness check reads without asking the agent.
#[derive(Debug, Clone, Copy, Default, PartialEq, Eq)]
pub struct Progress {
    pub events: u64,
    pub tool_calls: u64,
    pub longest_repeat: u32,
}

/// Current state of a launched run.
#[derive(Debug, Clone, PartialEq, Eq)]
pub enum RunState {
    Running(Progress),
    /// Frozen by a human, exactly where they froze it.
    Paused(Progress),
    Finished(Outcome),
}

/// What a harness needs on the container side.
#[derive(Debug, Clone, Default, PartialEq, Eq)]
pub struct Provisioning {
    /// Shell commands that put the harness in the image, run as the agent.
    pub install: Vec<String>,
    /// What must be on the agent's `PATH` afterwards.
    pub binary: String,
    /// Directories to prepend to `PATH` for the agent.
    pub path: Vec<String>,
    /// Directory the harness keeps its config and sessions in.
    pub config_dir: Option<String>,
    /// Domains the harness itself must reach.
    pub domains: Vec<String>,
}

/// Harness-side guards passed at invocation.
#[derive(Debug, Clone, Default, PartialEq, Eq)]
pub struct GuardSetup {
    pub args: Vec<String>,
}

/// How a role's prompt is handed to the harness.
#[derive(Debug, Clone, PartialEq, Eq)]
pub enum Exposure {
    /// Appended to the system prompt from a file.
    SystemPromptFile(String),
    /// Given as the first user message.
    UserMessage(String),
}

/// What can go wrong talking to a harness.
#[derive(Debug, Clone, PartialEq, Eq)]
pub enum HarnessError {
    Launch(String),
    UnknownRun(SessionId),
    /// The run could not be reached, and that is not a verdict on it.
    Unreachable(String),
    Io(String),
}

/// A command to run, as data: nothing here is tied to a process API.
#[derive(Debug, Clone, PartialEq, Eq)]
pub struct CommandSpec {
    pub program: String,
    pub args: Vec<String>,
    pub cwd: String,
    /// Environment, in key order.
    pub env: Vec<(String, String)>,
}

/// What a spawner reports back: enough to persist and to re-derive
/// liveness.
#[derive(Debug, Clone, PartialEq, Eq)]
pub struct Spawned {
    pub pid: Option<u32>,
    /// Container name, when the command runs in one.
    pub container: String,
}

/// The words of a command line joined by single spaces.
pub open spec fn spec_join_words(words: Seq<Seq<char>>) -> Seq<char>
    decreases words.len(),
{
    if words.len() == 0 {
        Seq::empty()
    } else if words.len() == 1 {
        words[0]
    } else {
        spec_join_words(words.drop_last()) + seq![' '] + words.last()
    }
}

impl CommandSpec {
    /// The program and its arguments, as words.
    pub open spec fn words(&self) -> Seq<Seq<char>> {
        seq![self.program@] + views(self.args@)
    }

    /// The command line as a single string, for logs and assertions.
    pub fn display(&self) -> (r: String)
        ensures
            r@ == spec_join_words(self.words()),
    {
        let mut out = self.program.clone();
        let mut i: usize = 0;
        while i < self.args.len()
            invariant
                i <= self.args@.len(),
                out@ == spec_join_words(self.words().subrange(0, i + 1)),
            decreases self.args@.len() - i,
        {
            crate::text::push_char(&mut out, ' ');
            crate::text::push_str(&mut out, self.args[i].as_str());
            proof {
                let w = self.words();
                assert(w.subrange(0, i + 2).drop_last() =~= w.subrange(0, i + 1));
                assert(w.subrange(0, i + 2).last() == self.args@[i as int]@);
            }
            i += 1;
        }
        assert(self.words().subrange(0, self.args@.len() + 1 as int) =~= self.words());
        out
    }
}

} // verus!
