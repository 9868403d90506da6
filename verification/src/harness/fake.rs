//! A harness for tests of the flow and the checks: it answers scripted
//! states without a container and without a model.

use vstd::prelude::*;
use crate::harness::{Exposure, HarnessError, Outcome, Role, RunHandle, RunRequest, RunState, SessionId, Workspace};
use crate::text::{join_path, owned, path_join, push_str};

verus! {

/// Scripted answers per session, and what was asked of it.
pub struct FakeHarness {
    /// Each session once, with the states it will report, in order.
    scripts: Vec<(SessionId, Vec<RunState>)>,
    launched: Vec<RunRequest>,
    stopped: Vec<SessionId>,
}

/// Where a session's script stands in a list of scripts, if it has one.
pub open spec fn script_at(scripts: Seq<(SessionId, Vec<RunState>)>, s: Seq<char>) -> Option<int>
    decreases scripts.len(),
{
    if scripts.len() == 0 {
        None
    } else {
        match script_at(scripts.drop_last(), s) {
            Some(i) => Some(i),
            None => if scripts.last().0.0@ == s { Some(scripts.len() - 1) } else { None },
        }
    }
}

proof fn lemma_script_at(scripts: Seq<(SessionId, Vec<RunState>)>, s: Seq<char>)
    ensures
        match script_at(scripts, s) {
            Some(i) => 0 <= i < scripts.len() && scripts[i].0.0@ == s
                && forall|k: int| 0 <= k < i ==> scripts[k].0.0@ != s,
            None => forall|k: int| 0 <= k < scripts.len() ==> scripts[k].0.0@ != s,
        },
    decreases scripts.len(),
{
    if scripts.len() > 0 {
        lemma_script_at(scripts.drop_last(), s);
        assert forall|k: int| 0 <= k < scripts.len() - 1 implies scripts.drop_last()[k] == scripts[k] by {}
    }
}

proof fn lemma_script_at_first(scripts: Seq<(SessionId, Vec<RunState>)>, s: Seq<char>, i: int)
    requires
        0 <= i < scripts.len(),
        scripts[i].0.0@ == s,
        forall|k: int| 0 <= k < i ==> scripts[k].0.0@ != s,
    ensures
        script_at(scripts, s) == Some(i),
    decreases scripts.len(),
{
    lemma_script_at(scripts, s);
    if i < scripts.len() - 1 {
        lemma_script_at_first(scripts.drop_last(), s, i);
    } else {
        lemma_script_at(scripts.drop_last(), s);
    }
}

proof fn lemma_script_at_none(scripts: Seq<(SessionId, Vec<RunState>)>, s: Seq<char>)
    requires
        forall|k: int| 0 <= k < scripts.len() ==> scripts[k].0.0@ != s,
    ensures
        script_at(scripts, s) is None,
    decreases scripts.len(),
{
    if scripts.len() > 0 {
        lemma_script_at_none(scripts.drop_last(), s);
    }
}

/// The states a session's script still holds, if it has one.
pub open spec fn script_of(scripts: Seq<(SessionId, Vec<RunState>)>, s: Seq<char>) -> Option<Seq<RunState>> {
    match script_at(scripts, s) {
        Some(i) => Some(scripts[i].1@),
        None => None,
    }
}

/// A copy of a state.
fn copy_state(s: &RunState) -> (r: RunState)
    ensures
        r == *s,
{
    match s {
        RunState::Running(p) => RunState::Running(*p),
        RunState::Paused(p) => RunState::Paused(*p),
        RunState::Finished(o) => RunState::Finished(o.copied()),
    }
}

/// A copy of a request.
fn copy_request(r: &RunRequest) -> (c: RunRequest)
    ensures
        c == *r,
{
    RunRequest {
        role: r.role,
        workspace: Workspace { tree: r.workspace.tree.clone(), mission_dir: r.workspace.mission_dir.clone() },
        lot: r.lot.clone(),
        attempt: r.attempt,
        session: SessionId(r.session.0.clone()),
        resume: r.resume,
        runs_dir: r.runs_dir.clone(),
    }
}

impl FakeHarness {
    /// What a session would be asked about next.
    pub closed spec fn states(&self, s: Seq<char>) -> Option<Seq<RunState>> {
        script_of(self.scripts@, s)
    }

    /// The requests launched so far, in order.
    pub closed spec fn launched_view(&self) -> Seq<RunRequest> {
        self.launched@
    }

    /// The sessions stopped so far, in order.
    pub closed spec fn stopped_view(&self) -> Seq<SessionId> {
        self.stopped@
    }

    pub fn new() -> (h: FakeHarness)
        ensures
            forall|s: Seq<char>| h.states(s) is None,
            h.launched_view().len() == 0,
            h.stopped_view().len() == 0,
    {
        FakeHarness { scripts: Vec::new(), launched: Vec::new(), stopped: Vec::new() }
    }

    /// Script the states a session will report, in order, in place of any
    /// script it had.
    pub fn script(&mut self, session: SessionId, states: Vec<RunState>)
        ensures
            final(self).states(session.0@) == Some(states@),
            forall|s: Seq<char>| s != session.0@ ==> final(self).states(s) == old(self).states(s),
            final(self).launched_view() == old(self).launched_view(),
            final(self).stopped_view() == old(self).stopped_view(),
    {
        let ghost key = session.0@;
        let ghost before = self.scripts@;
        let mut i: usize = 0;
        while i < self.scripts.len()
            invariant
                i <= self.scripts@.len(),
                self.scripts@ == before,
                before == old(self).scripts@,
                key == session.0@,
                self.launched@ == old(self).launched@,
                self.stopped@ == old(self).stopped@,
                forall|k: int| 0 <= k < i ==> self.scripts@[k].0.0@ != key,
            decreases self.scripts@.len() - i,
        {
            let name: &str = self.scripts[i].0.0.as_str();
            assert(self.scripts@[i as int] == before[i as int]);
            assert(name@ == before[i as int].0.0@);
            let same = crate::text::str_eq(name, session.0.as_str());
            assert(same == (before[i as int].0.0@ == key));
            if same {
                proof {
                    lemma_script_at_first(before, key, i as int);
                }
                self.scripts.set(i, (session, states));
                proof {
                    let after = self.scripts@;
                    assert(after == before.update(i as int, after[i as int]));
                    lemma_script_at_first(after, key, i as int);
                    assert forall|s: Seq<char>| s != key implies script_of(after, s) == script_of(before, s) by {
                        lemma_script_at(before, s);
                        match script_at(before, s) {
                            Some(j) => {
                                assert(j != i);
                                lemma_script_at_first(after, s, j);
                            },
                            None => {
                                lemma_script_at_none(after, s);
                            },
                        }
                    }
                }
                return;
            }
            i += 1;
        }
        self.scripts.push((session, states));
        proof {
            let after = self.scripts@;
            assert(after.drop_last() =~= before);
            lemma_script_at_none(before, key);
            assert forall|s: Seq<char>| s != key implies script_of(after, s) == script_of(before, s) by {
                lemma_script_at(before, s);
                match script_at(before, s) {
                    Some(j) => {
                        lemma_script_at_first(after, s, j);
                    },
                    None => {
                        lemma_script_at_none(after, s);
                    },
                }
            }
            lemma_script_at_first(after, key, after.len() - 1);
        }
    }

    /// A session that finishes at once with `outcome`.
    pub fn finish_with(&mut self, session: SessionId, outcome: Outcome)
        ensures
            final(self).states(session.0@) == Some(seq![RunState::Finished(outcome)]),
            forall|s: Seq<char>| s != session.0@ ==> final(self).states(s) == old(self).states(s),
            final(self).launched_view() == old(self).launched_view(),
            final(self).stopped_view() == old(self).stopped_view(),
    {
        let states: Vec<RunState> = vec![RunState::Finished(outcome)];
        self.script(session, states);
    }

    /// The requests launched so far, in order.
    pub fn launched(&self) -> (r: Vec<RunRequest>)
        ensures
            r@ == self.launched_view(),
    {
        let mut r: Vec<RunRequest> = Vec::new();
        let mut i: usize = 0;
        while i < self.launched.len()
            invariant
                i <= self.launched@.len(),
                r@ == self.launched@.subrange(0, i as int),
            decreases self.launched@.len() - i,
        {
            r.push(copy_request(&self.launched[i]));
            i += 1;
            assert(r@ =~= self.launched@.subrange(0, i as int));
        }
        assert(self.launched@.subrange(0, i as int) =~= self.launched@);
        r
    }

    /// The sessions stopped so far, in order.
    pub fn stopped(&self) -> (r: Vec<SessionId>)
        ensures
            r@ == self.stopped_view(),
    {
        let mut r: Vec<SessionId> = Vec::new();
        let mut i: usize = 0;
        while i < self.stopped.len()
            invariant
                i <= self.stopped@.len(),
                r@ == self.stopped@.subrange(0, i as int),
            decreases self.stopped@.len() - i,
        {
            r.push(SessionId(self.stopped[i].0.clone()));
            i += 1;
            assert(r@ =~= self.stopped@.subrange(0, i as int));
        }
        assert(self.stopped@.subrange(0, i as int) =~= self.stopped@);
        r
    }

    /// Record the launch, and hand back a handle in a container of the
    /// session's name.
    pub fn launch(&mut self, request: &RunRequest) -> (h: RunHandle)
        ensures
            final(self).launched_view() == old(self).launched_view().push(*request),
            final(self).stopped_view() == old(self).stopped_view(),
            forall|s: Seq<char>| final(self).states(s) == old(self).states(s),
            h.session == request.session,
            h.container@ == "fake-"@ + request.session.0@,
            h.pid == Some(1u32),
            h.log@ == path_join(path_join(request.workspace.mission_dir@, "runs"@), request.session.0@ + ".jsonl"@),
    {
        self.launched.push(copy_request(request));
        let mut container = owned("fake-");
        push_str(&mut container, request.session.0.as_str());
        let runs = join_path(request.workspace.mission_dir.as_str(), "runs");
        let mut file = request.session.0.clone();
        push_str(&mut file, ".jsonl");
        RunHandle {
            session: SessionId(request.session.0.clone()),
            container,
            pid: Some(1),
            log: join_path(runs.as_str(), file.as_str()),
        }
    }

    /// The next scripted state of the session: each call takes one, and the
    /// last one sticks. A session with no script, or an empty one, is
    /// unknown.
    pub fn state(&mut self, handle: &RunHandle) -> (r: Result<RunState, HarnessError>)
        ensures
            final(self).launched_view() == old(self).launched_view(),
            final(self).stopped_view() == old(self).stopped_view(),
            forall|s: Seq<char>| s != handle.session.0@ ==> final(self).states(s) == old(self).states(s),
            match old(self).states(handle.session.0@) {
                Some(states) => if states.len() == 0 {
                    r matches Err(HarnessError::UnknownRun(s)) && s == handle.session
                        && final(self).states(handle.session.0@) == Some(states)
                } else {
                    r == Ok::<RunState, HarnessError>(states[0])
                        && final(self).states(handle.session.0@)
                            == Some(if states.len() > 1 { states.drop_first() } else { states })
                },
                None => r matches Err(HarnessError::UnknownRun(s)) && s == handle.session
                    && final(self).states(handle.session.0@) is None,
            },
    {
        let ghost key = handle.session.0@;
        let ghost before = self.scripts@;
        proof { lemma_script_at(before, key); }
        let mut i: usize = 0;
        while i < self.scripts.len()
            invariant
                i <= self.scripts@.len(),
                self.scripts@ == before,
                before == old(self).scripts@,
                key == handle.session.0@,
                self.launched@ == old(self).launched@,
                self.stopped@ == old(self).stopped@,
                forall|k: int| 0 <= k < i ==> self.scripts@[k].0.0@ != key,
            decreases self.scripts@.len() - i,
        {
            let same = crate::text::str_eq(self.scripts[i].0.0.as_str(), handle.session.0.as_str());
            assert(same == (before[i as int].0.0@ == key));
            if same {
                proof { lemma_script_at_first(before, key, i as int); }
                let n = self.scripts[i].1.len();
                if n == 0 {
                    return Err(HarnessError::UnknownRun(SessionId(handle.session.0.clone())));
                }
                let first = copy_state(&self.scripts[i].1[0]);
                if n > 1 {
                    let (s, mut states) = self.scripts.remove(i);
                    let ghost old_states = states@;
                    states.remove(0);
                    assert(states@ =~= old_states.drop_first());
                    self.scripts.insert(i, (s, states));
                    proof {
                        let after = self.scripts@;
                        assert(after =~= before.update(i as int, after[i as int]));
                        lemma_script_at_first(after, key, i as int);
                        assert forall|t: Seq<char>| t != key implies script_of(after, t) == script_of(before, t) by {
                            lemma_script_at(before, t);
                            match script_at(before, t) {
                                Some(j) => {
                                    lemma_script_at_first(after, t, j);
                                },
                                None => {
                                    lemma_script_at_none(after, t);
                                },
                            }
                        }
                    }
                }
                return Ok(first);
            }
            i += 1;
        }
        proof { lemma_script_at_none(before, key); }
        Err(HarnessError::UnknownRun(SessionId(handle.session.0.clone())))
    }

    /// Record that the session was stopped.
    pub fn stop(&mut self, handle: &RunHandle)
        ensures
            final(self).stopped_view() == old(self).stopped_view().push(handle.session),
            final(self).launched_view() == old(self).launched_view(),
            forall|s: Seq<char>| final(self).states(s) == old(self).states(s),
    {
        self.stopped.push(SessionId(handle.session.0.clone()));
    }

    /// The role prompt, appended to the system prompt from its file.
    pub fn expose(&self, _role: Role, prompt_file: String) -> (e: Exposure)
        ensures
            e == Exposure::SystemPromptFile(prompt_file),
    {
        Exposure::SystemPromptFile(prompt_file)
    }
}

} // verus!
