//! The Docker adapter's commands, as data.
//!
//! Everything Docker Compose is asked — bring a profile up, freeze it, stop
//! it, run a command in it — is a command line built here; the program
//! around this crate runs it and hands back what it printed, which is read
//! here too.

use vstd::prelude::*;
use crate::engine::{Dialect, EngineError, Liveness, Netns};
use crate::harness::CommandSpec;
use crate::text::{
    chars_of, decimal, owned, parent_of, parse_i64, parse_i64_text, path_parent, spec_decimal,
    split_words, trim, trimmed, views, words, extend_strings,
};

verus! {

/// How the adapter reaches the engine.
#[derive(Debug, Clone, PartialEq, Eq)]
pub struct Config {
    /// The Compose command line, split into words: `docker compose` by
    /// default, `HQ_COMPOSE` if set.
    pub compose: Vec<String>,
    /// The engine binary used for container inspection: `docker` by default,
    /// `HQ_ENGINE` if set.
    pub engine: String,
    /// Seconds an engine is given to stop a container before it is killed.
    pub stop_timeout: u32,
}

/// Long enough for an agent to finish writing its journal after a SIGINT,
/// short enough that a slot is not held hostage.
pub const STOP_TIMEOUT_SECONDS: u32 = 20;

impl Config {
    /// The configuration the environment asks for: `compose` is the value of
    /// `HQ_COMPOSE` and `engine` that of `HQ_ENGINE`, when they are set.
    pub fn from_settings(compose: Option<&str>, engine: Option<&str>) -> (c: Config)
        ensures
            ({
                let ws = words(match compose { Some(t) => t@, None => "docker compose"@ });
                if ws.len() == 0 {
                    views(c.compose@) == seq!["docker"@, "compose"@]
                } else {
                    views(c.compose@) == ws
                }
            }),
            c.engine@ == match engine { Some(t) => t@, None => "docker"@ },
            c.stop_timeout == STOP_TIMEOUT_SECONDS,
    {
        let words = match compose {
            Some(t) => split_words(t),
            None => split_words("docker compose"),
        };
        let compose = if words.len() == 0 {
            let mut v: Vec<String> = Vec::new();
            v.push(owned("docker"));
            v.push(owned("compose"));
            assert(views(v@) =~= seq!["docker"@, "compose"@]);
            v
        } else {
            words
        };
        let engine = match engine {
            Some(t) => owned(t),
            None => owned("docker"),
        };
        Config { compose, engine, stop_timeout: STOP_TIMEOUT_SECONDS }
    }
}

/// The Docker adapter: its configuration and its dialect.
#[derive(Debug, Clone, PartialEq, Eq)]
pub struct Docker {
    pub config: Config,
    pub dialect: Dialect,
}

/// The name Docker Desktop, OrbStack and Docker Engine with an explicit
/// `host-gateway` give the host.
pub open spec fn docker_host_alias() -> Seq<char> {
    "host.docker.internal"@
}

/// The arguments of a Compose invocation, after the program.
pub open spec fn compose_args(compose: Seq<Seq<char>>, file: Seq<char>, project: Seq<char>, args: Seq<Seq<char>>) -> Seq<Seq<char>> {
    (if compose.len() > 0 { compose.drop_first() } else { Seq::empty() })
        + seq!["-p"@, project, "-f"@, file] + args
}

impl Docker {
    pub fn new(config: Config) -> (d: Docker)
        ensures
            d.config == config,
            d.dialect.netns == Netns::Service,
            d.dialect.host_alias@ == docker_host_alias(),
            d.dialect.userns is None,
    {
        Docker {
            config,
            dialect: Dialect { netns: Netns::Service, host_alias: owned("host.docker.internal"), userns: None },
        }
    }

    /// A Compose invocation as data: the configured Compose words, then the
    /// project and the file, then `args`, run from the file's directory.
    pub fn compose_command(&self, file: &str, project: &str, args: &[String]) -> (c: CommandSpec)
        ensures
            c.program@ == if self.config.compose@.len() > 0 { self.config.compose@[0]@ } else { "docker"@ },
            views(c.args@) == compose_args(views(self.config.compose@), file@, project@, views(args@)),
            c.cwd@ == match path_parent(file@) { Some(d) => d, None => "."@ },
            c.env@.len() == 0,
    {
        let program = if self.config.compose.len() > 0 { self.config.compose[0].clone() } else { owned("docker") };
        let mut all: Vec<String> = Vec::new();
        if self.config.compose.len() > 0 {
            extend_strings(&mut all, self.config.compose.as_slice(), 1);
            assert(views(self.config.compose@).subrange(1, self.config.compose@.len() as int)
                =~= views(self.config.compose@).drop_first());
        }
        let ghost head = views(all@);
        assert(head =~= (if self.config.compose@.len() > 0 { views(self.config.compose@).drop_first() } else { Seq::empty() }));
        all.push(owned("-p"));
        all.push(owned(project));
        all.push(owned("-f"));
        all.push(owned(file));
        let ghost mid = views(all@);
        assert(mid =~= head + seq!["-p"@, project@, "-f"@, file@]);
        extend_strings(&mut all, args, 0);
        assert(views(args@).subrange(0, args@.len() as int) =~= views(args@));
        let cwd = match parent_of(file) {
            Some(d) => d,
            None => owned("."),
        };
        CommandSpec { program, args: all, cwd, env: Vec::new() }
    }

    /// An invocation of the engine binary itself, for what Compose does not
    /// answer.
    pub fn engine_command(&self, args: &[String]) -> (c: CommandSpec)
        ensures
            c.program@ == self.config.engine@,
            views(c.args@) == views(args@),
            c.cwd@ == "."@,
            c.env@.len() == 0,
    {
        let mut all: Vec<String> = Vec::new();
        extend_strings(&mut all, args, 0);
        assert(views(all@) =~= views(args@));
        CommandSpec { program: self.config.engine.clone(), args: all, cwd: owned("."), env: Vec::new() }
    }

    /// The command that runs `argv` in a service's container without waiting:
    /// `exec -T [options] SERVICE COMMAND`. Order is not cosmetic — an option
    /// after the service name becomes part of the command.
    pub fn detached_command(
        &self,
        file: &str,
        project: &str,
        service: &str,
        options: &[String],
        argv: &[String],
    ) -> (c: CommandSpec)
        ensures
            c.program@ == if self.config.compose@.len() > 0 { self.config.compose@[0]@ } else { "docker"@ },
            views(c.args@) == compose_args(views(self.config.compose@), file@, project@,
                seq!["exec"@, "-T"@] + views(options@) + seq![service@] + views(argv@)),
            c.cwd@ == match path_parent(file@) { Some(d) => d, None => "."@ },
    {
        let mut args: Vec<String> = Vec::new();
        args.push(owned("exec"));
        args.push(owned("-T"));
        extend_strings(&mut args, options, 0);
        assert(views(args@) =~= seq!["exec"@, "-T"@] + views(options@));
        args.push(owned(service));
        extend_strings(&mut args, argv, 0);
        assert(views(args@) =~= seq!["exec"@, "-T"@] + views(options@) + seq![service@] + views(argv@));
        self.compose_command(file, project, args.as_slice())
    }

    /// What `docker inspect` is asked about a container: whether it runs,
    /// whether it is paused, and its exit code.
    pub fn liveness_command(&self, container: &str) -> (c: CommandSpec)
        ensures
            c.program@ == self.config.engine@,
            views(c.args@) == seq!["inspect"@, "-f"@,
                "{{.State.Running}} {{.State.Paused}} {{.State.ExitCode}}"@, container@],
    {
        let mut args: Vec<String> = Vec::new();
        args.push(owned("inspect"));
        args.push(owned("-f"));
        args.push(owned("{{.State.Running}} {{.State.Paused}} {{.State.ExitCode}}"));
        args.push(owned(container));
        assert(views(args@) =~= seq!["inspect"@, "-f"@,
            "{{.State.Running}} {{.State.Paused}} {{.State.ExitCode}}"@, container@]);
        self.engine_command(args.as_slice())
    }

    /// The arguments that stop services with the configured grace, before
    /// they are removed: `stop --timeout <seconds> <services>`.
    pub fn stop_args(&self, services: &[String]) -> (r: Vec<String>)
        ensures
            views(r@) == seq!["stop"@, "--timeout"@, spec_decimal(self.config.stop_timeout as nat)] + views(services@),
    {
        let mut r: Vec<String> = Vec::new();
        r.push(owned("stop"));
        r.push(owned("--timeout"));
        r.push(decimal(self.config.stop_timeout as u64));
        let ghost mid = views(r@);
        extend_strings(&mut r, services, 0);
        assert(views(services@).subrange(0, services@.len() as int) =~= views(services@));
        r
    }

    /// The arguments that take the whole project down with the configured
    /// grace, its named volumes too when asked — and never
    /// `--remove-orphans`, for a profile file that omits a service is no
    /// reason to delete it.
    pub fn down_args(&self, volumes: bool) -> (r: Vec<String>)
        ensures
            views(r@) == seq!["down"@, "--timeout"@, spec_decimal(self.config.stop_timeout as nat)]
                + if volumes { seq!["--volumes"@] } else { Seq::empty() },
    {
        let mut r: Vec<String> = Vec::new();
        r.push(owned("down"));
        r.push(owned("--timeout"));
        r.push(decimal(self.config.stop_timeout as u64));
        if volumes {
            r.push(owned("--volumes"));
        }
        proof {
            if volumes {
                assert(views(r@) =~= seq!["down"@, "--timeout"@, spec_decimal(self.config.stop_timeout as nat), "--volumes"@]);
            } else {
                assert(views(r@) =~= seq!["down"@, "--timeout"@, spec_decimal(self.config.stop_timeout as nat)]);
            }
        }
        r
    }
}

/// What `docker inspect` said, read: a paused container answers `true true`,
/// a running one `true …`, an exited one `false … <code>`.
pub open spec fn spec_liveness(succeeded: bool, stdout: Seq<char>) -> Result<Liveness, Seq<char>> {
    let f = words(stdout);
    if !succeeded {
        Ok(Liveness::Gone)
    } else if f.len() >= 1 && f[0] == "true"@ && f.len() >= 2 && f[1] == "true"@ {
        Ok(Liveness::Paused)
    } else if f.len() >= 1 && f[0] == "true"@ {
        Ok(Liveness::Running)
    } else if f.len() >= 3 && f[0] == "false"@ {
        match parse_i64(f[2]) {
            Some(code) => Ok(Liveness::Exited(code)),
            None => Err(trim(stdout)),
        }
    } else {
        Err(trim(stdout))
    }
}

/// Read what `docker inspect` answered about a container. The engine not
/// knowing the container is an answer, not a failure: `succeeded` false
/// means it is gone.
pub fn read_liveness(succeeded: bool, stdout: &str) -> (r: Result<Liveness, EngineError>)
    ensures
        match (r, spec_liveness(succeeded, stdout@)) {
            (Ok(a), Ok(b)) => a == b,
            (Err(EngineError::Unreadable(t)), Err(u)) => t@ == u,
            _ => false,
        },
{
    if !succeeded {
        return Ok(Liveness::Gone);
    }
    let f = split_words(stdout);
    if f.len() >= 1 && crate::text::str_eq(f[0].as_str(), "true") {
        if f.len() >= 2 && crate::text::str_eq(f[1].as_str(), "true") {
            return Ok(Liveness::Paused);
        }
        return Ok(Liveness::Running);
    }
    if f.len() >= 3 && crate::text::str_eq(f[0].as_str(), "false") {
        if let Some(code) = parse_i64_text(f[2].as_str()) {
            return Ok(Liveness::Exited(code));
        }
    }
    Err(EngineError::Unreadable(trimmed(stdout)))
}

} // verus!
