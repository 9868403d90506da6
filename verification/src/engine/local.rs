//! An engine that really runs what it is given, on this machine, with the
//! one property the scripted engine lacks: state.
//!
//! Commands arrive written for a container (`/work/proof`, `/work/tree`) and
//! are rewritten to the host directories standing in for them before
//! anything runs. What it does not do, it refuses rather than pretends:
//! `pause`, `unpause` and `kill` return an error naming themselves. Running
//! the rewritten commands and ending processes is the program's part; what
//! this engine decides is here.

use vstd::prelude::*;
use super::{Dialect, EngineError, Liveness, Netns};
use crate::harness::CommandSpec;
use crate::text::{chars_of, keys_sorted, owned, pairs_map, push_str, put_pair, replace_all, replaced, str_eq, views};

verus! {

/// The container id this engine answers with. Fixed: there is one.
pub const CONTAINER: &'static str = "local";

/// How many bytes a text takes, as `str::len` counts them.
pub open spec fn byte_len(s: Seq<char>) -> usize {
    vstd::utf8::encode_utf8(s).len() as usize
}

/// The mounts, as text.
pub open spec fn mount_views(m: Seq<(String, String)>) -> Seq<(Seq<char>, Seq<char>)> {
    m.map_values(|p: (String, String)| (p.0@, p.1@))
}

/// `m` with `x` placed after every entry whose path is at least as long:
/// one step of a stable sort, longest first.
pub open spec fn insert_by_len(m: Seq<(Seq<char>, Seq<char>)>, x: (Seq<char>, Seq<char>)) -> Seq<(Seq<char>, Seq<char>)>
    decreases m.len(),
{
    if m.len() == 0 {
        seq![x]
    } else if byte_len(m.last().0) >= byte_len(x.0) {
        m.push(x)
    } else {
        insert_by_len(m.drop_last(), x).push(m.last())
    }
}

/// The mounts, longest container path first, and in the order given among
/// paths of one length.
pub open spec fn sorted_by_len(m: Seq<(Seq<char>, Seq<char>)>) -> Seq<(Seq<char>, Seq<char>)>
    decreases m.len(),
{
    if m.len() == 0 {
        m
    } else {
        insert_by_len(sorted_by_len(m.drop_last()), m.last())
    }
}

/// A text written for the container, rewritten for this machine: each mount
/// in turn, every occurrence of its container path replaced by its host
/// path.
pub open spec fn on_host(mounts: Seq<(Seq<char>, Seq<char>)>, text: Seq<char>) -> Seq<char>
    decreases mounts.len(),
{
    if mounts.len() == 0 {
        text
    } else {
        on_host(mounts.drop_first(), replaced(text, mounts[0].0, mounts[0].1))
    }
}

/// The items of `s` whose answer in `keep` is yes, in order.
pub open spec fn kept(s: Seq<u32>, keep: Seq<bool>) -> Seq<u32>
    decreases s.len(),
{
    if s.len() == 0 || keep.len() == 0 {
        Seq::empty()
    } else if keep.last() {
        kept(s.drop_last(), keep.drop_last()).push(s.last())
    } else {
        kept(s.drop_last(), keep.drop_last())
    }
}

/// An engine that runs commands on this machine.
pub struct LocalEngine {
    pub dialect: Dialect,
    /// Container path first, host path second, longest first, so that
    /// `/work/tree/target` is rewritten before `/work/tree`.
    pub mounts: Vec<(String, String)>,
    /// Whether the profile is up.
    pub up: bool,
    /// Detached processes this engine started and has not yet ended.
    pub spawned: Vec<u32>,
}

proof fn lemma_insert_at(m: Seq<(Seq<char>, Seq<char>)>, x: (Seq<char>, Seq<char>), k: int)
    requires
        0 <= k <= m.len(),
        forall|j: int| k <= j < m.len() ==> byte_len(#[trigger] m[j].0) < byte_len(x.0),
        k > 0 ==> byte_len(m[k - 1].0) >= byte_len(x.0),
    ensures
        insert_by_len(m, x) == m.take(k).push(x) + m.skip(k),
    decreases m.len(),
{
    if m.len() == 0 {
        assert(m.take(k).push(x) + m.skip(k) =~= seq![x]);
    } else if k == m.len() {
        assert(m.take(k).push(x) + m.skip(k) =~= m.push(x));
    } else {
        let d = m.drop_last();
        assert(byte_len(m.last().0) < byte_len(x.0));
        lemma_insert_at(d, x, k);
        assert(m.take(k).push(x) + m.skip(k) =~= (d.take(k).push(x) + d.skip(k)).push(m.last()));
    }
}

fn insert_mount(m: &mut Vec<(String, String)>, x: (String, String))
    ensures
        mount_views(final(m)@) == insert_by_len(mount_views(old(m)@), (x.0@, x.1@)),
{
    let key = x.0.as_str().len();
    let mut k = m.len();
    while k > 0 && m[k - 1].0.as_str().len() < key
        invariant
            k <= m@.len(),
            key == byte_len(x.0@),
            forall|j: int| k <= j < m@.len() ==> byte_len(#[trigger] m@[j].0@) < byte_len(x.0@),
        decreases k,
    {
        k -= 1;
    }
    let ghost before = mount_views(m@);
    proof {
        lemma_insert_at(before, (x.0@, x.1@), k as int);
    }
    m.insert(k, x);
    assert(mount_views(m@) =~= before.take(k as int).push((x.0@, x.1@)) + before.skip(k as int));
}

fn rewrite(mounts: &Vec<(String, String)>, text: &str) -> (r: String)
    ensures
        r@ == on_host(mount_views(mounts@), text@),
{
    let mut r = owned(text);
    let mut i: usize = 0;
    assert(mount_views(mounts@).skip(0) =~= mount_views(mounts@));
    while i < mounts.len()
        invariant
            i <= mounts@.len(),
            on_host(mount_views(mounts@), text@) == on_host(mount_views(mounts@).skip(i as int), r@),
        decreases mounts@.len() - i,
    {
        let ghost rest = mount_views(mounts@).skip(i as int);
        assert(rest.drop_first() =~= mount_views(mounts@).skip(i + 1));
        r = replace_all(r.as_str(), mounts[i].0.as_str(), mounts[i].1.as_str());
        i += 1;
    }
    assert(mount_views(mounts@).skip(i as int) =~= Seq::<(Seq<char>, Seq<char>)>::empty());
    r
}

/// What the local engine says when asked for what it does not do.
pub open spec fn unsupported_message(verb: Seq<char>) -> Seq<char> {
    "the local engine does not implement "@ + verb
        + ": it runs commands and ends processes, and says so rather than answering as if it had"@
}

fn unsupported(verb: &str) -> (r: EngineError)
    ensures
        r matches EngineError::Command { verb: v, status, stderr } && v@ == "local"@ && status@ == "unsupported"@
            && stderr@ == unsupported_message(verb@),
{
    let mut m = owned("the local engine does not implement ");
    push_str(&mut m, verb);
    push_str(&mut m, ": it runs commands and ends processes, and says so rather than answering as if it had");
    EngineError::Command { verb: owned("local"), status: owned("unsupported"), stderr: m }
}

/// Where the first `=` is in `s`, if there is one.
pub open spec fn first_eq(s: Seq<char>) -> Option<int> {
    let k = crate::text::first_from(0, s.len() as int, |i: int| s[i] == '=');
    if k < s.len() { Some(k) } else { None }
}

/// What the engine's exec options say, read from index `i`: `-w <dir>`
/// sets the working directory and `-e K=V` an environment variable, both
/// rewritten for the host; anything else is passed over.
pub open spec fn read_options(
    mounts: Seq<(Seq<char>, Seq<char>)>,
    o: Seq<Seq<char>>,
    i: int,
    cwd: Seq<char>,
    env: Map<Seq<char>, Seq<char>>,
) -> (Seq<char>, Map<Seq<char>, Seq<char>>)
    decreases o.len() - i,
{
    if i < 0 || i >= o.len() {
        (cwd, env)
    } else if o[i] == "-w"@ {
        if i + 1 < o.len() {
            read_options(mounts, o, i + 2, on_host(mounts, o[i + 1]), env)
        } else {
            (cwd, env)
        }
    } else if o[i] == "-e"@ {
        if i + 1 < o.len() {
            match first_eq(o[i + 1]) {
                Some(k) => read_options(
                    mounts,
                    o,
                    i + 2,
                    cwd,
                    env.insert(o[i + 1].take(k), on_host(mounts, o[i + 1].skip(k + 1))),
                ),
                None => read_options(mounts, o, i + 2, cwd, env),
            }
        } else {
            (cwd, env)
        }
    } else {
        read_options(mounts, o, i + 1, cwd, env)
    }
}

fn split_at_eq(s: &str) -> (r: Option<(String, String)>)
    ensures
        match (r, first_eq(s@)) {
            (Some((a, b)), Some(k)) => a@ == s@.take(k) && b@ == s@.skip(k + 1),
            (None, None) => true,
            _ => false,
        },
{
    let v = chars_of(s);
    let mut i: usize = 0;
    while i < v.len() && v[i] != '='
        invariant
            v@ == s@,
            i <= v@.len(),
            crate::text::first_from(0, s@.len() as int, |j: int| s@[j] == '=')
                == crate::text::first_from(i as int, s@.len() as int, |j: int| s@[j] == '='),
        decreases v@.len() - i,
    {
        i += 1;
    }
    if i == v.len() {
        return None;
    }
    let a = crate::text::string_of(v.as_slice(), 0, i);
    let b = crate::text::string_of(v.as_slice(), i + 1, v.len());
    assert(v@.subrange(0, i as int) =~= s@.take(i as int));
    assert(v@.subrange(i + 1, v@.len() as int) =~= s@.skip(i + 1));
    Some((a, b))
}

impl LocalEngine {
    /// An engine for `mounts`, each a container path and the host
    /// directory standing in for it. Order does not matter: the longest
    /// path is applied first, whatever it is given in.
    pub fn new(mounts: &[(&str, &str)]) -> (r: LocalEngine)
        ensures
            mount_views(r.mounts@) == sorted_by_len(mounts@.map_values(|m: (&str, &str)| (m.0@, m.1@))),
            r.dialect.netns == Netns::Service,
            r.dialect.host_alias@ == "host.docker.internal"@,
            r.dialect.userns is None,
            !r.up,
            r.spawned@.len() == 0,
    {
        let ghost given = mounts@.map_values(|m: (&str, &str)| (m.0@, m.1@));
        let mut sorted: Vec<(String, String)> = Vec::new();
        let mut i: usize = 0;
        while i < mounts.len()
            invariant
                i <= mounts@.len(),
                given == mounts@.map_values(|m: (&str, &str)| (m.0@, m.1@)),
                mount_views(sorted@) == sorted_by_len(given.take(i as int)),
            decreases mounts@.len() - i,
        {
            let (at, host) = mounts[i];
            insert_mount(&mut sorted, (owned(at), owned(host)));
            i += 1;
            assert(given.take(i as int).drop_last() =~= given.take(i - 1));
        }
        assert(given.take(i as int) =~= given);
        LocalEngine {
            dialect: Dialect { netns: Netns::Service, host_alias: owned("host.docker.internal"), userns: None },
            mounts: sorted,
            up: false,
            spawned: Vec::new(),
        }
    }

    /// A command written for the container, rewritten for this machine.
    pub fn on_the_host(&self, text: &str) -> (r: String)
        ensures
            r@ == on_host(mount_views(self.mounts@), text@),
    {
        rewrite(&self.mounts, text)
    }

    /// What this engine has started and not yet ended, of the processes
    /// `alive` says still run: one answer per process, in order.
    pub fn running(&self, alive: &[bool]) -> (r: Vec<u32>)
        requires
            alive@.len() == self.spawned@.len(),
        ensures
            r@ == kept(self.spawned@, alive@),
    {
        let mut r: Vec<u32> = Vec::new();
        let mut i: usize = 0;
        while i < self.spawned.len()
            invariant
                i <= self.spawned@.len(),
                alive@.len() == self.spawned@.len(),
                r@ == kept(self.spawned@.take(i as int), alive@.take(i as int)),
            decreases self.spawned@.len() - i,
        {
            if alive[i] {
                r.push(self.spawned[i]);
            }
            i += 1;
            assert(self.spawned@.take(i as int).drop_last() =~= self.spawned@.take(i - 1));
            assert(alive@.take(i as int).drop_last() =~= alive@.take(i - 1));
        }
        assert(self.spawned@.take(i as int) =~= self.spawned@);
        assert(alive@.take(i as int) =~= alive@);
        r
    }

    /// Keep a process this engine started, so that a `stop` ends it.
    pub fn remember(&mut self, pid: u32)
        ensures
            final(self).spawned@ == old(self).spawned@.push(pid),
            final(self).mounts@ == old(self).mounts@,
            final(self).up == old(self).up,
    {
        self.spawned.push(pid);
    }

    /// The engine's name.
    pub fn name(&self) -> (r: &'static str)
        ensures
            r@ == "local"@,
    {
        "local"
    }

    /// Bring the profile up.
    pub fn up(&mut self, _file: &str, _project: &str) -> (r: Result<(), EngineError>)
        ensures
            final(self).up,
            final(self).spawned@ == old(self).spawned@,
            final(self).mounts@ == old(self).mounts@,
            r is Ok,
    {
        self.up = true;
        Ok(())
    }

    /// Refused: this engine does not freeze processes.
    pub fn pause(&self, _file: &str, _project: &str, _services: &[&str]) -> (r: Result<(), EngineError>)
        ensures
            r matches Err(EngineError::Command { stderr, .. }) && stderr@ == unsupported_message("pause"@),
    {
        Err(unsupported("pause"))
    }

    /// Refused: this engine does not freeze processes.
    pub fn unpause(&self, _file: &str, _project: &str, _services: &[&str]) -> (r: Result<(), EngineError>)
        ensures
            r matches Err(EngineError::Command { stderr, .. }) && stderr@ == unsupported_message("unpause"@),
    {
        Err(unsupported("unpause"))
    }

    /// Refused: the emergency brake is the container engine's.
    pub fn kill(&self, _file: &str, _project: &str, _services: &[&str]) -> (r: Result<(), EngineError>)
        ensures
            r matches Err(EngineError::Command { stderr, .. }) && stderr@ == unsupported_message("kill"@),
    {
        Err(unsupported("kill"))
    }

    /// Take the profile down: every process it started is handed back to be
    /// ended, and none is kept.
    pub fn stop(&mut self) -> (ended: Vec<u32>)
        ensures
            ended@ == old(self).spawned@,
            final(self).spawned@.len() == 0,
            !final(self).up,
            final(self).mounts@ == old(self).mounts@,
    {
        let mut ended: Vec<u32> = Vec::new();
        std::mem::swap(&mut ended, &mut self.spawned);
        self.up = false;
        ended
    }

    /// The container behind any service: the one this engine answers with.
    pub fn container_of(&self, _file: &str, _project: &str, _service: &str) -> (r: Result<Option<String>, EngineError>)
        ensures
            r matches Ok(Some(c)) && c@ == CONTAINER@,
    {
        Ok(Some(owned(CONTAINER)))
    }

    /// Running while the profile is up, gone otherwise.
    pub fn liveness(&self, _container: &str) -> (r: Result<Liveness, EngineError>)
        ensures
            r == Ok::<Liveness, EngineError>(if self.up { Liveness::Running } else { Liveness::Gone }),
    {
        if self.up { Ok(Liveness::Running) } else { Ok(Liveness::Gone) }
    }

    /// The command line that runs `argv` on this machine: the engine's own
    /// options read into a working directory and an environment, and every
    /// text rewritten for the host. An empty command runs nothing.
    pub fn detached_command(&self, _file: &str, _project: &str, _service: &str, options: &[String], argv: &[String]) -> (r: CommandSpec)
        ensures
            ({
                let m = mount_views(self.mounts@);
                let (cwd, env) = read_options(m, views(options@), 0, "."@, Map::empty());
                &&& r.cwd@ == cwd
                &&& pairs_map(r.env@) == env
                &&& keys_sorted(r.env@)
                &&& argv@.len() == 0 ==> r.program@.len() == 0 && r.args@.len() == 0
                &&& argv@.len() > 0 ==> r.program@ == on_host(m, argv@[0]@)
                    && views(r.args@) == views(argv@).skip(1).map_values(|a: Seq<char>| on_host(m, a))
            }),
    {
        let ghost m = mount_views(self.mounts@);
        let ghost o = views(options@);
        let mut cwd = owned(".");
        let mut env: Vec<(String, String)> = Vec::new();
        let mut i: usize = 0;
        while i < options.len()
            invariant
                m == mount_views(self.mounts@),
                o == views(options@),
                i <= options@.len(),
                keys_sorted(env@),
                read_options(m, o, 0, "."@, Map::empty()) == read_options(m, o, i as int, cwd@, pairs_map(env@)),
            decreases options@.len() - i,
        {
            let option = options[i].as_str();
            if str_eq(option, "-w") {
                proof { reveal_strlit("-w"); }
                if i + 1 < options.len() {
                    cwd = self.on_the_host(options[i + 1].as_str());
                    i += 2;
                } else {
                    i = options.len();
                }
            } else if str_eq(option, "-e") {
                proof { reveal_strlit("-e"); reveal_strlit("-w"); }
                if i + 1 < options.len() {
                    match split_at_eq(options[i + 1].as_str()) {
                        Some((key, value)) => {
                            let value = self.on_the_host(value.as_str());
                            put_pair(&mut env, (key, value));
                        },
                        None => {},
                    }
                    i += 2;
                } else {
                    i = options.len();
                }
            } else {
                proof { reveal_strlit("-e"); reveal_strlit("-w"); }
                i += 1;
            }
        }
        if argv.len() == 0 {
            return CommandSpec { program: String::new(), args: Vec::new(), cwd, env };
        }
        let program = self.on_the_host(argv[0].as_str());
        let mut args: Vec<String> = Vec::new();
        let mut j: usize = 1;
        while j < argv.len()
            invariant
                m == mount_views(self.mounts@),
                1 <= j <= argv@.len(),
                views(args@) == views(argv@).subrange(1, j as int).map_values(|a: Seq<char>| on_host(m, a)),
            decreases argv@.len() - j,
        {
            let ghost before = views(args@);
            args.push(self.on_the_host(argv[j].as_str()));
            assert(views(args@) =~= before.push(on_host(m, argv@[j as int]@)));
            j += 1;
            assert(views(args@) =~= views(argv@).subrange(1, j as int).map_values(|a: Seq<char>| on_host(m, a)));
        }
        assert(views(argv@).subrange(1, j as int) =~= views(argv@).skip(1));
        CommandSpec { program, args, cwd, env }
    }
}

} // verus!
