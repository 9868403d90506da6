//! The container-engine boundary.
//!
//! The HQ generates the Compose file itself and an engine adapter runs it.
//! What genuinely differs between engines lives behind [`Dialect`]; the
//! commands an adapter runs are built here as data, and the program around
//! this crate runs them.

pub mod docker;
pub mod spawn;
pub mod fake;
pub mod local;

use vstd::prelude::*;
use crate::text::{owned, push_str};

verus! {

/// How a service says "share that service's network namespace".
#[derive(Debug, Clone, Copy, PartialEq, Eq, Structural)]
pub enum Netns {
    /// Docker Compose: `service:<name>`, resolved by Compose itself.
    Service,
    /// podman-compose: only `container:<name>`, so the generated container
    /// name has to be known in advance.
    Container,
}

/// What an engine does differently. Held by the adapter, read by the
/// generator.
#[derive(Debug, Clone, PartialEq, Eq)]
pub struct Dialect {
    pub netns: Netns,
    /// The name the host answers to from inside a container.
    pub host_alias: String,
    /// A user-namespace mode the engine needs, if any.
    pub userns: Option<String>,
}

impl Dialect {
    /// The value of `network_mode:` for a service joining `service`'s
    /// namespace, in `project`.
    pub open spec fn spec_netns_ref(&self, project: Seq<char>, service: Seq<char>) -> Seq<char> {
        match self.netns {
            Netns::Service => "service:"@ + service,
            Netns::Container => "container:"@ + project + "-"@ + service + "-1"@,
        }
    }

    /// The value of `network_mode:` for a service joining `service`'s
    /// namespace, in `project`. Compose names a container
    /// `<project>-<service>-<index>`, and the index is 1 for a service with
    /// no replicas.
    pub fn netns_ref(&self, project: &str, service: &str) -> (r: String)
        ensures
            r@ == self.spec_netns_ref(project@, service@),
    {
        match self.netns {
            Netns::Service => {
                let mut r = owned("service:");
                push_str(&mut r, service);
                r
            },
            Netns::Container => {
                let mut r = owned("container:");
                push_str(&mut r, project);
                push_str(&mut r, "-");
                push_str(&mut r, service);
                push_str(&mut r, "-1");
                r
            },
        }
    }
}

/// What the engine says about a container: the authority asked on restart
/// before believing the HQ's own state.
#[derive(Debug, Clone, Copy, PartialEq, Eq, Structural)]
pub enum Liveness {
    Running,
    /// Frozen: the process is there and makes no progress.
    Paused,
    /// It exists and is not running; the code is what the engine reports.
    Exited(i64),
    /// The engine knows nothing about it.
    Gone,
}

/// The output of a command run in a container.
#[derive(Debug, Clone, PartialEq, Eq)]
pub struct ExecOutput {
    pub status: i32,
    pub stdout: String,
    pub stderr: String,
}

impl ExecOutput {
    pub fn ok(&self) -> (b: bool)
        ensures
            b == (self.status == 0),
    {
        self.status == 0
    }
}

/// What can go wrong asking an engine.
#[derive(Debug, Clone, PartialEq, Eq)]
pub enum EngineError {
    /// A command failed: its verb, its status, what it said.
    Command { verb: String, status: String, stderr: String },
    /// No container for the service in the project.
    NoContainer(String, String),
    /// The engine's answer could not be read.
    Unreadable(String),
    /// The engine could not be run at all.
    Io(String),
}

} // verus!
