//! A scripted engine, so the flow can be tested without a container: it
//! answers what it was told to answer and keeps what it was asked, in order.

use vstd::prelude::*;
use super::{Dialect, EngineError, ExecOutput, Liveness, Netns};
use crate::harness::CommandSpec;
use crate::text::{owned, views};

verus! {

/// What was asked of the engine, in order, for a test to assert on.
#[derive(Debug, Clone, PartialEq, Eq)]
pub enum Call {
    Up(String),
    Stop(String, Vec<String>),
    Pause(String, Vec<String>),
    Unpause(String, Vec<String>),
    Kill(String, Vec<String>),
    Down(String, bool),
    Exec(String, String, Vec<String>),
    ContainerOf(String, String),
    Liveness(String),
}

/// A call, its words as text.
pub enum CallView {
    Up(Seq<char>),
    Stop(Seq<char>, Seq<Seq<char>>),
    Pause(Seq<char>, Seq<Seq<char>>),
    Unpause(Seq<char>, Seq<Seq<char>>),
    Kill(Seq<char>, Seq<Seq<char>>),
    Down(Seq<char>, bool),
    Exec(Seq<char>, Seq<char>, Seq<Seq<char>>),
    ContainerOf(Seq<char>, Seq<char>),
    Liveness(Seq<char>),
}

impl View for Call {
    type V = CallView;

    open spec fn view(&self) -> CallView {
        match self {
            Call::Up(p) => CallView::Up(p@),
            Call::Stop(p, s) => CallView::Stop(p@, views(s@)),
            Call::Pause(p, s) => CallView::Pause(p@, views(s@)),
            Call::Unpause(p, s) => CallView::Unpause(p@, views(s@)),
            Call::Kill(p, s) => CallView::Kill(p@, views(s@)),
            Call::Down(p, v) => CallView::Down(p@, *v),
            Call::Exec(p, s, a) => CallView::Exec(p@, s@, views(a@)),
            Call::ContainerOf(p, s) => CallView::ContainerOf(p@, s@),
            Call::Liveness(c) => CallView::Liveness(c@),
        }
    }
}

/// The calls, as text.
pub open spec fn call_views(calls: Seq<Call>) -> Seq<CallView> {
    calls.map_values(|c: Call| c@)
}

/// The value the latest pair with key `k` holds, if one does.
pub open spec fn latest_text(v: Seq<(String, String)>, k: Seq<char>) -> Option<Seq<char>>
    decreases v.len(),
{
    if v.len() == 0 {
        None
    } else if v.last().0@ == k {
        Some(v.last().1@)
    } else {
        latest_text(v.drop_last(), k)
    }
}

/// The state the latest pair with key `k` holds, if one does.
pub open spec fn latest_liveness(v: Seq<(String, Liveness)>, k: Seq<char>) -> Option<Liveness>
    decreases v.len(),
{
    if v.len() == 0 {
        None
    } else if v.last().0@ == k {
        Some(v.last().1)
    } else {
        latest_liveness(v.drop_last(), k)
    }
}

/// An engine that answers from a script.
pub struct FakeEngine {
    pub dialect: Dialect,
    /// What was asked, in order.
    pub calls: Vec<Call>,
    /// The container behind each service; a later pair replaces an earlier.
    pub containers: Vec<(String, String)>,
    /// What each container's state is; a later pair replaces an earlier.
    pub liveness: Vec<(String, Liveness)>,
    /// The answer to every `exec` when no queue is given.
    pub exec_result: ExecOutput,
    /// Answers to give to `exec` in turn, the last one kept.
    pub exec_queue: Vec<ExecOutput>,
    /// What a failing `up` says, when it is made to fail.
    pub fail_up: Option<String>,
}

/// Strings from string slices.
fn to_strings(items: &[&str]) -> (r: Vec<String>)
    ensures
        views(r@) == items@.map_values(|s: &str| s@),
{
    let mut r: Vec<String> = Vec::new();
    let mut i: usize = 0;
    while i < items.len()
        invariant
            i <= items@.len(),
            views(r@) == items@.take(i as int).map_values(|s: &str| s@),
        decreases items@.len() - i,
    {
        let ghost before = views(r@);
        r.push(owned(items[i]));
        assert(views(r@) =~= before.push(items@[i as int]@));
        i += 1;
        assert(views(r@) =~= items@.take(i as int).map_values(|s: &str| s@));
    }
    assert(items@.take(i as int) =~= items@);
    r
}

/// Strings copied.
fn copy_strings(items: &[String]) -> (r: Vec<String>)
    ensures
        views(r@) == views(items@),
{
    let mut r: Vec<String> = Vec::new();
    let mut i: usize = 0;
    while i < items.len()
        invariant
            i <= items@.len(),
            views(r@) == views(items@.take(i as int)),
        decreases items@.len() - i,
    {
        let ghost before = views(r@);
        r.push(owned(items[i].as_str()));
        assert(views(r@) =~= before.push(items@[i as int]@));
        i += 1;
        assert(views(r@) =~= views(items@.take(i as int)));
    }
    assert(items@.take(i as int) =~= items@);
    r
}

/// A copy of an engine's answer.
fn copy_output(o: &ExecOutput) -> (r: ExecOutput)
    ensures
        r.status == o.status,
        r.stdout@ == o.stdout@,
        r.stderr@ == o.stderr@,
{
    ExecOutput { status: o.status, stdout: owned(o.stdout.as_str()), stderr: owned(o.stderr.as_str()) }
}

/// A copy of a call.
fn copy_call(c: &Call) -> (r: Call)
    ensures
        r@ == c@,
{
    match c {
        Call::Up(p) => Call::Up(owned(p.as_str())),
        Call::Stop(p, s) => Call::Stop(owned(p.as_str()), copy_strings(s.as_slice())),
        Call::Pause(p, s) => Call::Pause(owned(p.as_str()), copy_strings(s.as_slice())),
        Call::Unpause(p, s) => Call::Unpause(owned(p.as_str()), copy_strings(s.as_slice())),
        Call::Kill(p, s) => Call::Kill(owned(p.as_str()), copy_strings(s.as_slice())),
        Call::Down(p, v) => Call::Down(owned(p.as_str()), *v),
        Call::Exec(p, s, a) => Call::Exec(owned(p.as_str()), owned(s.as_str()), copy_strings(a.as_slice())),
        Call::ContainerOf(p, s) => Call::ContainerOf(owned(p.as_str()), owned(s.as_str())),
        Call::Liveness(x) => Call::Liveness(owned(x.as_str())),
    }
}

fn lookup_text(v: &Vec<(String, String)>, k: &str) -> (r: Option<String>)
    ensures
        match (r, latest_text(v@, k@)) {
            (Some(a), Some(b)) => a@ == b,
            (None, None) => true,
            _ => false,
        },
{
    let mut i = v.len();
    assert(v@.take(i as int) =~= v@);
    while i > 0
        invariant
            i <= v@.len(),
            latest_text(v@, k@) == latest_text(v@.take(i as int), k@),
        decreases i,
    {
        let ghost t = v@.take(i as int);
        assert(t.drop_last() =~= v@.take(i - 1));
        if crate::text::str_eq(v[i - 1].0.as_str(), k) {
            return Some(owned(v[i - 1].1.as_str()));
        }
        i -= 1;
    }
    assert(v@.take(0) =~= Seq::<(String, String)>::empty());
    None
}

fn lookup_liveness(v: &Vec<(String, Liveness)>, k: &str) -> (r: Option<Liveness>)
    ensures
        r == latest_liveness(v@, k@),
{
    let mut i = v.len();
    assert(v@.take(i as int) =~= v@);
    while i > 0
        invariant
            i <= v@.len(),
            latest_liveness(v@, k@) == latest_liveness(v@.take(i as int), k@),
        decreases i,
    {
        let ghost t = v@.take(i as int);
        assert(t.drop_last() =~= v@.take(i - 1));
        if crate::text::str_eq(v[i - 1].0.as_str(), k) {
            return Some(v[i - 1].1);
        }
        i -= 1;
    }
    assert(v@.take(0) =~= Seq::<(String, Liveness)>::empty());
    None
}

impl FakeEngine {
    /// An engine with Docker's dialect, nothing recorded, and every `exec`
    /// answered with success and no output.
    pub fn new() -> (r: FakeEngine)
        ensures
            r.dialect.netns == Netns::Service,
            r.dialect.host_alias@ == "host.docker.internal"@,
            r.dialect.userns is None,
            r.calls@.len() == 0,
            r.containers@.len() == 0,
            r.liveness@.len() == 0,
            r.exec_result.status == 0,
            r.exec_result.stdout@.len() == 0,
            r.exec_result.stderr@.len() == 0,
            r.exec_queue@.len() == 0,
            r.fail_up is None,
    {
        FakeEngine {
            dialect: Dialect { netns: Netns::Service, host_alias: owned("host.docker.internal"), userns: None },
            calls: Vec::new(),
            containers: Vec::new(),
            liveness: Vec::new(),
            exec_result: ExecOutput { status: 0, stdout: String::new(), stderr: String::new() },
            exec_queue: Vec::new(),
            fail_up: None,
        }
    }

    /// The same engine, with `container` behind `service`.
    pub fn with_container(self, service: &str, container: &str) -> (r: FakeEngine)
        ensures
            forall|k: Seq<char>| latest_text(r.containers@, k) == if k == service@ {
                Some(container@)
            } else {
                latest_text(self.containers@, k)
            },
            r.calls@ == self.calls@,
            r.liveness@ == self.liveness@,
            r.exec_queue@ == self.exec_queue@,
            r.fail_up == self.fail_up,
    {
        let mut e = self;
        let ghost before = e.containers@;
        e.containers.push((owned(service), owned(container)));
        assert(e.containers@.drop_last() =~= before);
        e
    }

    /// The same engine, with `container` in `state`.
    pub fn with_liveness(self, container: &str, state: Liveness) -> (r: FakeEngine)
        ensures
            forall|k: Seq<char>| latest_liveness(r.liveness@, k) == if k == container@ {
                Some(state)
            } else {
                latest_liveness(self.liveness@, k)
            },
            r.calls@ == self.calls@,
            r.containers@ == self.containers@,
            r.exec_queue@ == self.exec_queue@,
            r.fail_up == self.fail_up,
    {
        let mut e = self;
        let ghost before = e.liveness@;
        e.liveness.push((owned(container), state));
        assert(e.liveness@.drop_last() =~= before);
        e
    }

    /// The same engine, answering every `exec` with `out`.
    pub fn with_exec(self, out: ExecOutput) -> (r: FakeEngine)
        ensures
            r.exec_result == out,
            r.exec_queue@ == self.exec_queue@,
            r.calls@ == self.calls@,
            r.containers@ == self.containers@,
            r.liveness@ == self.liveness@,
            r.fail_up == self.fail_up,
    {
        let mut e = self;
        e.exec_result = out;
        e
    }

    /// Answer each `exec` in turn, and keep answering with the last. A gate
    /// that runs a script first refreshes the clean copy of `HEAD`, so this
    /// is what lets the script's own status be said apart from the refresh's.
    pub fn with_execs(self, outs: Vec<ExecOutput>) -> (r: FakeEngine)
        ensures
            r.exec_queue@ == outs@,
            r.exec_result == self.exec_result,
            r.calls@ == self.calls@,
            r.containers@ == self.containers@,
            r.liveness@ == self.liveness@,
            r.fail_up == self.fail_up,
    {
        let mut e = self;
        e.exec_queue = outs;
        e
    }

    /// Make `up` fail, the way a sidecar that never becomes healthy does.
    pub fn failing_up(self, why: &str) -> (r: FakeEngine)
        ensures
            r.fail_up matches Some(w) && w@ == why@,
            r.exec_result == self.exec_result,
            r.exec_queue@ == self.exec_queue@,
            r.calls@ == self.calls@,
            r.containers@ == self.containers@,
            r.liveness@ == self.liveness@,
    {
        let mut e = self;
        e.fail_up = Some(owned(why));
        e
    }

    /// What was asked so far, in order.
    pub fn calls(&self) -> (r: Vec<Call>)
        ensures
            call_views(r@) == call_views(self.calls@),
    {
        let mut r: Vec<Call> = Vec::new();
        let mut i: usize = 0;
        while i < self.calls.len()
            invariant
                i <= self.calls@.len(),
                call_views(r@) == call_views(self.calls@.take(i as int)),
            decreases self.calls@.len() - i,
        {
            let ghost before = call_views(r@);
            r.push(copy_call(&self.calls[i]));
            assert(call_views(r@) =~= before.push(self.calls@[i as int]@));
            i += 1;
            assert(call_views(r@) =~= call_views(self.calls@.take(i as int)));
        }
        assert(self.calls@.take(i as int) =~= self.calls@);
        r
    }

    /// The engine's name.
    pub fn name(&self) -> (r: &'static str)
        ensures
            r@ == "fake"@,
    {
        "fake"
    }

    /// Bring a profile up: recorded, and failing when told to.
    pub fn up(&mut self, _file: &str, project: &str) -> (r: Result<(), EngineError>)
        ensures
            call_views(final(self).calls@) == call_views(old(self).calls@).push(CallView::Up(project@)),
            final(self).fail_up == old(self).fail_up,
            final(self).containers@ == old(self).containers@,
            final(self).liveness@ == old(self).liveness@,
            final(self).exec_queue@ == old(self).exec_queue@,
            match old(self).fail_up {
                Some(why) => r matches Err(EngineError::Command { verb, status, stderr })
                    && verb@ == "up"@ && status@ == "1"@ && stderr@ == why@,
                None => r is Ok,
            },
    {
        let ghost before = call_views(self.calls@);
        self.calls.push(Call::Up(owned(project)));
        assert(call_views(self.calls@) =~= before.push(CallView::Up(project@)));
        match &self.fail_up {
            Some(why) => Err(EngineError::Command { verb: owned("up"), status: owned("1"), stderr: owned(why.as_str()) }),
            None => Ok(()),
        }
    }

    /// Freeze services: recorded.
    pub fn pause(&mut self, _file: &str, project: &str, services: &[&str]) -> (r: Result<(), EngineError>)
        ensures
            call_views(final(self).calls@) == call_views(old(self).calls@).push(
                CallView::Pause(project@, services@.map_values(|s: &str| s@)),
            ),
            final(self).containers@ == old(self).containers@,
            final(self).liveness@ == old(self).liveness@,
            final(self).exec_queue@ == old(self).exec_queue@,
            r is Ok,
    {
        let ghost before = call_views(self.calls@);
        self.calls.push(Call::Pause(owned(project), to_strings(services)));
        assert(call_views(self.calls@) =~= before.push(CallView::Pause(project@, services@.map_values(|s: &str| s@))));
        Ok(())
    }

    /// Unfreeze services: recorded.
    pub fn unpause(&mut self, _file: &str, project: &str, services: &[&str]) -> (r: Result<(), EngineError>)
        ensures
            call_views(final(self).calls@) == call_views(old(self).calls@).push(
                CallView::Unpause(project@, services@.map_values(|s: &str| s@)),
            ),
            final(self).containers@ == old(self).containers@,
            final(self).liveness@ == old(self).liveness@,
            final(self).exec_queue@ == old(self).exec_queue@,
            r is Ok,
    {
        let ghost before = call_views(self.calls@);
        self.calls.push(Call::Unpause(owned(project), to_strings(services)));
        assert(call_views(self.calls@) =~= before.push(CallView::Unpause(project@, services@.map_values(|s: &str| s@))));
        Ok(())
    }

    /// Kill services: recorded.
    pub fn kill(&mut self, _file: &str, project: &str, services: &[&str]) -> (r: Result<(), EngineError>)
        ensures
            call_views(final(self).calls@) == call_views(old(self).calls@).push(
                CallView::Kill(project@, services@.map_values(|s: &str| s@)),
            ),
            final(self).containers@ == old(self).containers@,
            final(self).liveness@ == old(self).liveness@,
            final(self).exec_queue@ == old(self).exec_queue@,
            r is Ok,
    {
        let ghost before = call_views(self.calls@);
        self.calls.push(Call::Kill(owned(project), to_strings(services)));
        assert(call_views(self.calls@) =~= before.push(CallView::Kill(project@, services@.map_values(|s: &str| s@))));
        Ok(())
    }

    /// Stop services: recorded.
    pub fn stop(&mut self, _file: &str, project: &str, services: &[&str]) -> (r: Result<(), EngineError>)
        ensures
            call_views(final(self).calls@) == call_views(old(self).calls@).push(
                CallView::Stop(project@, services@.map_values(|s: &str| s@)),
            ),
            final(self).containers@ == old(self).containers@,
            final(self).liveness@ == old(self).liveness@,
            final(self).exec_queue@ == old(self).exec_queue@,
            r is Ok,
    {
        let ghost before = call_views(self.calls@);
        self.calls.push(Call::Stop(owned(project), to_strings(services)));
        assert(call_views(self.calls@) =~= before.push(CallView::Stop(project@, services@.map_values(|s: &str| s@))));
        Ok(())
    }

    /// Take the project down: recorded.
    pub fn down(&mut self, _file: &str, project: &str, volumes: bool) -> (r: Result<(), EngineError>)
        ensures
            call_views(final(self).calls@) == call_views(old(self).calls@).push(CallView::Down(project@, volumes)),
            final(self).containers@ == old(self).containers@,
            final(self).liveness@ == old(self).liveness@,
            final(self).exec_queue@ == old(self).exec_queue@,
            r is Ok,
    {
        let ghost before = call_views(self.calls@);
        self.calls.push(Call::Down(owned(project), volumes));
        assert(call_views(self.calls@) =~= before.push(CallView::Down(project@, volumes)));
        Ok(())
    }

    /// Run a command: recorded, and answered with the next answer in the
    /// queue, the queue's last answer once one is left, or the single
    /// answer when there is no queue.
    pub fn exec(&mut self, _file: &str, project: &str, service: &str, argv: &[String]) -> (r: Result<ExecOutput, EngineError>)
        ensures
            call_views(final(self).calls@) == call_views(old(self).calls@).push(
                CallView::Exec(project@, service@, views(argv@)),
            ),
            final(self).containers@ == old(self).containers@,
            final(self).liveness@ == old(self).liveness@,
            r matches Ok(out) && ({
                let q = old(self).exec_queue@;
                let want = if q.len() > 0 { q[0] } else { old(self).exec_result };
                out.status == want.status && out.stdout@ == want.stdout@ && out.stderr@ == want.stderr@
            }),
            final(self).exec_queue@ == if old(self).exec_queue@.len() > 1 {
                old(self).exec_queue@.drop_first()
            } else {
                old(self).exec_queue@
            },
    {
        let ghost before = call_views(self.calls@);
        self.calls.push(Call::Exec(owned(project), owned(service), copy_strings(argv)));
        assert(call_views(self.calls@) =~= before.push(CallView::Exec(project@, service@, views(argv@))));
        if self.exec_queue.len() > 1 {
            let first = self.exec_queue.remove(0);
            assert(self.exec_queue@ =~= old(self).exec_queue@.drop_first());
            return Ok(first);
        }
        if self.exec_queue.len() == 1 {
            return Ok(copy_output(&self.exec_queue[0]));
        }
        Ok(copy_output(&self.exec_result))
    }

    /// The container behind a service: recorded, and answered from the
    /// script.
    pub fn container_of(&mut self, _file: &str, project: &str, service: &str) -> (r: Result<Option<String>, EngineError>)
        ensures
            call_views(final(self).calls@) == call_views(old(self).calls@).push(CallView::ContainerOf(project@, service@)),
            final(self).containers@ == old(self).containers@,
            final(self).liveness@ == old(self).liveness@,
            final(self).exec_queue@ == old(self).exec_queue@,
            r matches Ok(found) && match (found, latest_text(old(self).containers@, service@)) {
                (Some(a), Some(b)) => a@ == b,
                (None, None) => true,
                _ => false,
            },
    {
        let ghost before = call_views(self.calls@);
        self.calls.push(Call::ContainerOf(owned(project), owned(service)));
        assert(call_views(self.calls@) =~= before.push(CallView::ContainerOf(project@, service@)));
        Ok(lookup_text(&self.containers, service))
    }

    /// What the engine says of a container: recorded, and `Gone` for one the
    /// script does not name.
    pub fn liveness(&mut self, container: &str) -> (r: Result<Liveness, EngineError>)
        ensures
            call_views(final(self).calls@) == call_views(old(self).calls@).push(CallView::Liveness(container@)),
            final(self).containers@ == old(self).containers@,
            final(self).liveness@ == old(self).liveness@,
            final(self).exec_queue@ == old(self).exec_queue@,
            r == Ok::<Liveness, EngineError>(match latest_liveness(old(self).liveness@, container@) {
                Some(s) => s,
                None => Liveness::Gone,
            }),
    {
        let ghost before = call_views(self.calls@);
        self.calls.push(Call::Liveness(owned(container)));
        assert(call_views(self.calls@) =~= before.push(CallView::Liveness(container@)));
        match lookup_liveness(&self.liveness, container) {
            Some(s) => Ok(s),
            None => Ok(Liveness::Gone),
        }
    }

    /// The command line a detached run would use: the project, the engine's
    /// options, the service, then the command.
    pub fn detached_command(&self, _file: &str, project: &str, service: &str, options: &[String], argv: &[String]) -> (r: CommandSpec)
        ensures
            r.program@ == "fake-engine"@,
            views(r.args@) == seq![project@] + views(options@) + seq![service@] + views(argv@),
            r.cwd@ == "."@,
            r.env@.len() == 0,
    {
        let mut args: Vec<String> = Vec::new();
        args.push(owned(project));
        let mut o = copy_strings(options);
        args.append(&mut o);
        args.push(owned(service));
        let mut a = copy_strings(argv);
        args.append(&mut a);
        proof {
            assert(views(args@) =~= seq![project@] + views(options@) + seq![service@] + views(argv@));
        }
        CommandSpec { program: owned("fake-engine"), args, cwd: owned("."), env: Vec::new() }
    }
}

/// A path any test can hand to an engine that never reads it.
pub fn nowhere() -> (r: String)
    ensures
        r@ == "/nowhere/profile.yml"@,
{
    owned("/nowhere/profile.yml")
}

} // verus!
