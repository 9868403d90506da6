//! The mutation campaign and its file.
//!
//! Gate 7 is deterministic and reads a file. The campaign that produces it
//! is long: it runs in the slot's container, on the clean copy of `HEAD`,
//! launched detached and watched like a run. No threshold: gate 7 turns green
//! when every survivor has one of three outcomes, never when a score clears
//! a bar. A campaign replays only when the touched files' content changed:
//! the fingerprint is over git blob ids, not over `HEAD`.

use vstd::prelude::*;
use vstd::string::StringSliceAdditionalSpecFns;
use crate::engine::spawn::Presence;
use crate::exec::ExecError;
use crate::git::GitError;
use crate::text::{
    decimal, join, join_path, join_strings, owned, path_join, push_str, sorted_unique, spec_decimal,
    str_eq, strictly_sorted, views,
};

verus! {

/// The campaign's result, in the mission folder: the HQ's file, mounted
/// read-only in the container.
pub const FILE: &'static str = "MUTANTS.json";
/// The coder's answers, beside it: the agent's file, the only one of the two
/// it can write.
pub const TRIAGE_FILE: &'static str = "MUTANTS.triage.json";
/// Where the campaigns in flight are filed, under the HQ, keyed by slot.
pub const CAMPAIGNS_DIR: &'static str = "campaigns";
/// What the stack fragment declares to run a campaign.
pub const SCRIPT: &'static str = "mutation.sh";

/// The three outcomes a survivor may receive, and there is no fourth.
#[derive(Debug, Clone, PartialEq, Eq)]
pub enum Triage {
    /// Killed by a test that is named, and the name has to exist in the tree.
    Killed { test: String },
    /// Shown equivalent, in one sentence: the one outcome no machine can
    /// check, which is why it is not the agent's to give.
    Equivalent { why: String },
    /// Recognised as a bug and frozen in a named test.
    Bug { test: String },
}

impl Triage {
    /// The test this outcome rests on, when it rests on one.
    pub open spec fn spec_test(&self) -> Option<Seq<char>> {
        match self {
            Triage::Killed { test } => Some(test@),
            Triage::Bug { test } => Some(test@),
            Triage::Equivalent { .. } => None,
        }
    }

    /// Whether the coder may write this outcome itself: the two that rest
    /// on a committed test, yes; the judgement, no.
    pub fn is_the_coders_to_give(&self) -> (b: bool)
        ensures
            b == self.spec_test() is Some,
    {
        self.test().is_some()
    }

    /// The name an outcome goes by in a refusal.
    pub open spec fn spec_kind(&self) -> Seq<char> {
        match self {
            Triage::Killed { .. } => "killed"@,
            Triage::Equivalent { .. } => "equivalent"@,
            Triage::Bug { .. } => "bug"@,
        }
    }

    pub fn kind(&self) -> (r: &'static str)
        ensures
            r@ == self.spec_kind(),
    {
        match self {
            Triage::Killed { .. } => "killed",
            Triage::Equivalent { .. } => "equivalent",
            Triage::Bug { .. } => "bug",
        }
    }

    /// The test this outcome rests on, when it rests on one.
    pub fn test(&self) -> (r: Option<&str>)
        ensures
            match (r, self.spec_test()) {
                (Some(a), Some(b)) => a@ == b,
                (None, None) => true,
                _ => false,
            },
    {
        match self {
            Triage::Killed { test } => Some(test.as_str()),
            Triage::Bug { test } => Some(test.as_str()),
            Triage::Equivalent { .. } => None,
        }
    }
}

/// A mutant the campaign could not kill.
#[derive(Debug, Clone, PartialEq, Eq)]
pub struct Survivor {
    /// What the tool calls it — enough to find it again.
    pub id: String,
    pub file: String,
    pub line: u32,
    /// What the mutation did, in the tool's words.
    pub description: String,
    /// The HQ's answer, absent until one is written.
    pub outcome: Option<Triage>,
}

/// `MUTANTS.json`.
#[derive(Debug, Clone, PartialEq, Eq)]
pub struct Campaign {
    /// The content fingerprint of the touched files this campaign ran on.
    pub fingerprint: String,
    /// The commit it ran on, for a human reading the file later.
    pub head: String,
    pub date: String,
    pub survivors: Vec<Survivor>,
}

/// A campaign in flight.
#[derive(Debug, Clone, PartialEq, Eq)]
pub struct Running {
    pub fingerprint: String,
    pub head: String,
    pub started_at: String,
    pub container: String,
    pub pid: Option<u32>,
    /// Where the campaign's stdout lands, on the host.
    pub log: String,
    /// How long it is given before it is called hung.
    pub deadline_minutes: u32,
}

/// What can go wrong with a campaign.
#[derive(Debug, Clone, PartialEq, Eq)]
pub enum MutantsError {
    Git(GitError),
    /// A file that is not a campaign the HQ can read, and why.
    Unreadable(String, String),
    /// A file that could not be read or written, and why.
    Io(String, String),
    Exec(ExecError),
    /// The campaign could not be launched.
    Launch(String),
}

/// Where a mission's campaign result lives.
pub fn paths(dir: &str) -> (r: String)
    ensures
        r@ == path_join(dir@, "MUTANTS.json"@),
{
    join_path(dir, "MUTANTS.json")
}

/// Where the record of the campaign rewriting this slot's clean copy lives:
/// `<hq>/campaigns/<slot>.json`.
pub fn running_path(hq_root: &str, slot: &str) -> (r: String)
    ensures
        r@ == path_join(path_join(hq_root@, "campaigns"@), slot@ + ".json"@),
{
    let dir = join_path(hq_root, "campaigns");
    let mut file = owned(slot);
    push_str(&mut file, ".json");
    join_path(dir.as_str(), file.as_str())
}

/// The manifest's lines before sorting: `<blob> <path>` for each touched
/// path the first time it comes.
pub open spec fn manifest_lines(touched: Seq<Seq<char>>, blobs: Seq<Seq<char>>) -> Seq<Seq<char>>
    decreases touched.len(),
{
    if touched.len() == 0 || blobs.len() < touched.len() {
        Seq::empty()
    } else {
        let k = touched.len() - 1;
        let before = manifest_lines(touched.drop_last(), blobs);
        if touched.drop_last().contains(touched.last()) {
            before
        } else {
            before.push(blobs[k] + " "@ + touched[k])
        }
    }
}

/// The manifest a fingerprint is the digest of: one line `<blob> <path>`
/// per touched path — its blob id at `HEAD`, or `absent` — each path once,
/// sorted, joined by line feeds. `blobs[i]` is what
/// `git rev-parse HEAD:<touched[i]>` printed, or `absent` when it failed;
/// the program around this crate asks git, and `git hash-object --stdin`
/// digests the manifest.
pub fn manifest(touched: &[String], blobs: &[String]) -> (r: String)
    requires
        blobs@.len() == touched@.len(),
    ensures
        is_manifest(r@, manifest_lines(views(touched@), views(blobs@))),
{
    let mut lines: Vec<String> = Vec::new();
    let mut i: usize = 0;
    while i < touched.len()
        invariant
            blobs@.len() == touched@.len(),
            i <= touched@.len(),
            views(lines@) == manifest_lines(views(touched@).take(i as int), views(blobs@)),
        decreases touched@.len() - i,
    {
        let mut seen = false;
        let mut j: usize = 0;
        while j < i
            invariant
                i < touched@.len(),
                j <= i,
                seen == exists|k: int| 0 <= k < j && touched@[k]@ == touched@[i as int]@,
            decreases i - j,
        {
            if !seen && str_eq(touched[j].as_str(), touched[i].as_str()) {
                seen = true;
            }
            j += 1;
        }
        proof {
            let t = views(touched@).take(i + 1);
            assert(t.drop_last() =~= views(touched@).take(i as int));
            assert(t.last() == touched@[i as int]@);
            if seen {
                let k = choose|k: int| 0 <= k < i && touched@[k]@ == touched@[i as int]@;
                assert(t.drop_last()[k] == touched@[i as int]@);
            } else {
                assert(!t.drop_last().contains(t.last())) by {
                    if t.drop_last().contains(t.last()) {
                        let k = choose|k: int| 0 <= k < t.drop_last().len() && t.drop_last()[k] == t.last();
                        assert(touched@[k]@ == touched@[i as int]@);
                    }
                }
            }
        }
        if !seen {
            let mut line = blobs[i].clone();
            push_str(&mut line, " ");
            push_str(&mut line, touched[i].as_str());
            let ghost before = views(lines@);
            lines.push(line);
            assert(views(lines@) =~= before.push(blobs@[i as int]@ + " "@ + touched@[i as int]@));
        }
        i += 1;
    }
    assert(views(touched@).take(i as int) =~= views(touched@));
    let sorted = crate::text::sort_texts(lines.as_slice());
    let r = join_strings(sorted.as_slice(), "\n");
    assert(crate::text::sorted_le(views(sorted@))
        && views(sorted@).to_multiset() == manifest_lines(views(touched@), views(blobs@)).to_multiset()
        && r@ == join(views(sorted@), "\n"@));
    r
}

/// Whether `n` is `c` with survivor `k` ruled equivalent for `why`, and
/// nothing else changed.
pub open spec fn ruled(c: Campaign, n: Campaign, k: int, why: Seq<char>) -> bool {
    &&& n.fingerprint == c.fingerprint && n.head == c.head && n.date == c.date
    &&& n.survivors@.len() == c.survivors@.len()
    &&& forall|j: int| 0 <= j < c.survivors@.len() && j != k ==> #[trigger] n.survivors@[j] == c.survivors@[j]
    &&& n.survivors@[k].id == c.survivors@[k].id && n.survivors@[k].file == c.survivors@[k].file
    &&& n.survivors@[k].line == c.survivors@[k].line
    &&& n.survivors@[k].description == c.survivors@[k].description
    &&& match n.survivors@[k].outcome {
        Some(Triage::Equivalent { why: w }) => w@ == why,
        _ => false,
    }
}

/// Record the HQ's own ruling on a survivor: this mutant changes nothing
/// observable, and here is why in one sentence. The campaign on file is
/// `campaign`, read from the mission folder `dir`.
pub fn rule_equivalent(campaign: Option<Campaign>, dir: &str, id: &str, why: &str) -> (r: Result<Campaign, MutantsError>)
    ensures
        campaign is None ==> (r matches Err(MutantsError::Unreadable(f, w))
            && f@ == path_join(dir@, "MUTANTS.json"@)
            && w@ == "there is no campaign to rule on — `nunki mission mutants` runs one"@),
        campaign matches Some(c) ==> {
            let k = crate::text::first_from(0, c.survivors@.len() as int, |j: int| c.survivors@[j].id@ == id@);
            if k < c.survivors@.len() {
                r matches Ok(n) && ruled(c, n, k, why@)
            } else {
                r matches Err(MutantsError::Unreadable(f, w)) && f@ == path_join(dir@, "MUTANTS.json"@)
                    && w@ == "no survivor is called "@ + crate::text::debug_quoted(id@) + " in this campaign"@
            }
        },
{
    let mut found = match campaign {
        Some(c) => c,
        None => return Err(MutantsError::Unreadable(paths(dir),
            owned("there is no campaign to rule on — `nunki mission mutants` runs one"))),
    };
    let ghost c0 = found;
    let ghost n = c0.survivors@.len() as int;
    let ghost p = |j: int| c0.survivors@[j].id@ == id@;
    let mut i: usize = 0;
    while i < found.survivors.len()
        invariant
            campaign == Some(c0),
            found == c0,
            n == c0.survivors@.len(),
            p == (|j: int| c0.survivors@[j].id@ == id@),
            i <= n,
            crate::text::first_from(0, n, p) == crate::text::first_from(i as int, n, p),
        decreases n - i,
    {
        if str_eq(found.survivors[i].id.as_str(), id) {
            assert(p(i as int));
            assert(crate::text::first_from(i as int, n, p) == i);
            let updated = Survivor {
                id: found.survivors[i].id.clone(),
                file: found.survivors[i].file.clone(),
                line: found.survivors[i].line,
                description: found.survivors[i].description.clone(),
                outcome: Some(Triage::Equivalent { why: owned(why) }),
            };
            let mut survivors = found.survivors;
            survivors.set(i, updated);
            let n2 = Campaign { fingerprint: found.fingerprint, head: found.head, date: found.date, survivors };
            assert(ruled(c0, n2, i as int, why@));
            return Ok(n2);
        }
        proof {
            crate::text::lemma_first_from_skip(i as int, i + 1, n, p);
        }
        i += 1;
    }
    let mut w = owned("no survivor is called ");
    push_str(&mut w, crate::text::quoted(id).as_str());
    push_str(&mut w, " in this campaign");
    Err(MutantsError::Unreadable(paths(dir), w))
}

/// Whether a campaign is asked to replay.
#[derive(Debug, Clone, Copy, PartialEq, Eq, Structural)]
pub enum Replay {
    /// Only when the touched files have changed. The default.
    WhenChanged,
    /// Now, whatever is on file. Never touches a campaign in flight.
    Now,
}

/// Where a campaign is at, as a caller reports it.
#[derive(Debug, Clone, PartialEq, Eq)]
pub enum Progress {
    /// Nothing to do: a campaign on this exact content is already on file.
    Fresh { survivors: usize },
    /// Launched just now.
    Started { fingerprint: String },
    /// Still going.
    Running { started_at: String, lines: usize },
    /// Ended, and `MUTANTS.json` is written.
    Finished { survivors: usize },
    /// Past its deadline and stopped.
    Overrun { minutes: u32 },
    /// The container went away under it, or the engine could not be asked.
    Lost(String),
}

/// The campaign on file, when it answers for this content and the caller is
/// willing to take it. A campaign costs an hour, so one on the same content
/// is not run again — unless a human says something changed that the
/// fingerprint cannot see.
pub fn already_answered(existing: Option<&Campaign>, want: &str, replay: Replay) -> (r: Option<Progress>)
    ensures
        r == (match existing {
            Some(c) => if replay == Replay::WhenChanged && c.fingerprint@ == want@ {
                Some(Progress::Fresh { survivors: c.survivors@.len() as usize })
            } else {
                None
            },
            None => None,
        }),
{
    if replay == Replay::Now {
        return None;
    }
    match existing {
        None => None,
        Some(c) => {
            if !str_eq(c.fingerprint.as_str(), want) {
                return None;
            }
            Some(Progress::Fresh { survivors: c.survivors.len() })
        },
    }
}

/// What a campaign that has ended says, once its file is written: with no
/// survivor there is nobody to triage.
pub open spec fn spec_ended(survivors: nat) -> Seq<char> {
    if survivors == 0 {
        "finished — no survivor in MUTANTS.json: gate 7 has nothing left to ask"@
    } else {
        "finished — "@ + spec_decimal(survivors)
            + " survivor(s) in MUTANTS.json; each needs one of the three outcomes before gate 7 is green"@
    }
}

pub fn ended(survivors: usize) -> (r: String)
    ensures
        r@ == spec_ended(survivors as nat),
{
    if survivors == 0 {
        return owned("finished — no survivor in MUTANTS.json: gate 7 has nothing left to ask");
    }
    let mut r = owned("finished — ");
    push_str(&mut r, decimal(survivors as u64).as_str());
    push_str(&mut r, " survivor(s) in MUTANTS.json; each needs one of the three outcomes before gate 7 is green");
    r
}

/// What a campaign that has just been launched says to the human whose verb
/// launched it.
pub fn started(mission: &str) -> (r: String)
    ensures
        r@ == "started; it runs detached, and `nunki verify "@ + mission@ + "` reads it back"@,
{
    let mut r = owned("started; it runs detached, and `nunki verify ");
    push_str(&mut r, mission);
    push_str(&mut r, "` reads it back");
    r
}

/// What reading a campaign back leaves to do with its record.
#[derive(Debug, Clone, Copy, PartialEq, Eq, Structural)]
pub enum Cleanup {
    /// The campaign is in flight: keep the record.
    Keep,
    /// It is over: forget the record.
    Forget,
    /// It is past its deadline: stop it, then forget the record.
    Stop,
}

/// What a campaign that ended without saying so says.
pub open spec fn lost_line(lines: nat, log: Seq<char>) -> Seq<char> {
    "it stopped without saying it had finished, after "@ + spec_decimal(lines)
        + " line(s): a campaign that was killed, whose container went away, or that never compiled leaves exactly this, and none of them measured anything. Its log is "@
        + log
}

/// What a filed campaign is now, given what was learned about it: its
/// presence, how many lines its log holds, whether the log ends with the
/// line that says it got to the end, how many survivors the log holds, and
/// how many minutes have passed since it started. A frozen campaign is still
/// in flight, and its deadline does not run against a clock the human
/// stopped on purpose. Whenever it is over, the record is forgotten; the
/// third answer says whether `MUTANTS.json` is to be written.
pub fn read_back(running: &Running, presence: Presence, lines: usize, completed: bool, survivors: usize, minutes: u32)
    -> (r: (Progress, Cleanup, bool))
    ensures
        match presence {
            Presence::Paused => r.0 matches Progress::Running { started_at, lines: l }
                && started_at@ == running.started_at@ && l == lines && r.1 == Cleanup::Keep && !r.2,
            Presence::Running => if minutes > running.deadline_minutes {
                r.0 == Progress::Overrun { minutes: running.deadline_minutes } && r.1 == Cleanup::Stop && !r.2
            } else {
                r.0 matches Progress::Running { started_at, lines: l }
                    && started_at@ == running.started_at@ && l == lines && r.1 == Cleanup::Keep && !r.2
            },
            Presence::Ended => if completed {
                r.0 == Progress::Finished { survivors } && r.1 == Cleanup::Forget && r.2
            } else {
                r.0 matches Progress::Lost(w) && w@ == lost_line(lines as nat, running.log@)
                    && r.1 == Cleanup::Forget && !r.2
            },
            Presence::Vanished(why) => r.0 matches Progress::Lost(w) && w@ == why@ && r.1 == Cleanup::Forget && !r.2,
            Presence::Unknown(why) => r.0 matches Progress::Lost(w) && w@ == why@ && r.1 == Cleanup::Forget && !r.2,
        },
{
    match presence {
        Presence::Paused => (Progress::Running { started_at: running.started_at.clone(), lines }, Cleanup::Keep, false),
        Presence::Running => {
            if minutes > running.deadline_minutes {
                (Progress::Overrun { minutes: running.deadline_minutes }, Cleanup::Stop, false)
            } else {
                (Progress::Running { started_at: running.started_at.clone(), lines }, Cleanup::Keep, false)
            }
        },
        Presence::Ended => {
            if completed {
                (Progress::Finished { survivors }, Cleanup::Forget, true)
            } else {
                let mut w = owned("it stopped without saying it had finished, after ");
                push_str(&mut w, decimal(lines as u64).as_str());
                push_str(&mut w, " line(s): a campaign that was killed, whose container went away, or that never compiled leaves exactly this, and none of them measured anything. Its log is ");
                push_str(&mut w, running.log.as_str());
                (Progress::Lost(w), Cleanup::Forget, false)
            }
        },
        Presence::Vanished(why) => (Progress::Lost(why), Cleanup::Forget, false),
        Presence::Unknown(why) => (Progress::Lost(why), Cleanup::Forget, false),
    }
}

/// The arguments a campaign is launched with: its id, the fingerprint,
/// first — so it is identifiable from its own command line — then the
/// touched paths.
pub fn campaign_args(want: &str, touched: &[String]) -> (r: Vec<String>)
    ensures
        views(r@) == seq![want@] + views(touched@),
{
    let mut r: Vec<String> = Vec::new();
    r.push(owned(want));
    crate::text::extend_strings(&mut r, touched, 0);
    assert(views(touched@).subrange(0, touched@.len() as int) =~= views(touched@));
    r
}

/// Where a campaign's log goes: `<dir>/runs/mutants-<first seven bytes of
/// the fingerprint>.log`.
pub fn campaign_log(dir: &str, want: &str) -> (r: String)
    requires
        crate::text::bytes_end_on_char(want@, 7),
    ensures
        r@ == path_join(path_join(dir@, "runs"@), "mutants-"@ + crate::text::take_bytes(want@, 7) + ".log"@),
{
    let runs = join_path(dir, "runs");
    let mut file = owned("mutants-");
    push_str(&mut file, crate::text::prefix_bytes(want, 7));
    push_str(&mut file, ".log");
    join_path(runs.as_str(), file.as_str())
}

/// What a launch says when the stack ships no executable campaign script.
pub fn no_script(script: &str, stack: &str) -> (e: MutantsError)
    ensures
        e matches MutantsError::Launch(w) && w@ == "there is no executable "@ + script@
            + " in the container — the mutation campaign is a deterministic command the `"@ + stack@
            + "` stack declares, in the project's home"@,
{
    let mut w = owned("there is no executable ");
    push_str(&mut w, script);
    push_str(&mut w, " in the container — the mutation campaign is a deterministic command the `");
    push_str(&mut w, stack);
    push_str(&mut w, "` stack declares, in the project's home");
    MutantsError::Launch(w)
}

/// What `str::parse::<u32>` reads from these bytes: an optional `+`, then
/// ASCII digits, the value fitting in 32 bits.
pub open spec fn parse_u32_bytes(b: Seq<u8>) -> Option<u32> {
    crate::text::parse_u32(b.map_values(|x: u8| x as char))
}

/// The number in bytes `from..to` of a stamp, when there are that many bytes
/// and they read as a number: what `stamp.get(from..to)?.parse::<u32>()`
/// gives, for digits are single bytes and always lie on characters.
pub open spec fn field(b: Seq<u8>, from: int, to: int) -> Option<u32> {
    if to <= b.len() { parse_u32_bytes(b.subrange(from, to)) } else { None }
}

/// `YYYY-MM-DDTHH:MM:SSZ` as minutes, on a calendar simple enough to be right
/// for a difference of hours: every month 31 days, every year 366. Nothing
/// when the stamp is shorter than sixteen bytes or a field does not read.
pub open spec fn spec_epoch_minutes(b: Seq<u8>) -> Option<int> {
    if b.len() < 16 {
        None
    } else {
        match (field(b, 0, 4), field(b, 5, 7), field(b, 8, 10), field(b, 11, 13), field(b, 14, 16)) {
            (Some(y), Some(mo), Some(d), Some(h), Some(mi)) =>
                Some((y * 366 + mo * 31 + d) * 24 * 60 + h * 60 + mi),
            _ => None,
        }
    }
}

fn read_field(b: &[u8], from: usize, to: usize) -> (r: Option<u32>)
    requires
        from <= to,
    ensures
        r == field(b@, from as int, to as int),
{
    if to > b.len() {
        return None;
    }
    let mut cs: Vec<char> = Vec::new();
    let mut i = from;
    while i < to
        invariant
            from <= i <= to <= b@.len(),
            cs@ == b@.subrange(from as int, i as int).map_values(|x: u8| x as char),
        decreases to - i,
    {
        cs.push(b[i] as char);
        i += 1;
        assert(cs@ =~= b@.subrange(from as int, i as int).map_values(|x: u8| x as char));
    }
    let from_plus: usize = if cs.len() > 0 && cs[0] == '+' { 1 } else { 0 };
    let ghost body = if cs@.len() > 0 && cs@[0] == '+' { cs@.drop_first() } else { cs@ };
    assert(body =~= cs@.subrange(from_plus as int, cs@.len() as int));
    match crate::text::digits_upto(cs.as_slice(), from_plus, cs.len(), 0xFFFF_FFFF) {
        Some(n) => Some(n as u32),
        None => None,
    }
}

/// A stamp in minutes, read the way the HQ writes stamps. The result must
/// fit in 32 bits, as the reading is done in them.
pub fn epoch_minutes(stamp: &str) -> (r: Option<u32>)
    requires
        spec_epoch_minutes(stamp.spec_bytes()) matches Some(m) ==> m <= u32::MAX,
    ensures
        match spec_epoch_minutes(stamp.spec_bytes()) {
            Some(m) => r == Some(m as u32),
            None => r is None,
        },
{
    let bytes = stamp.as_bytes();
    if bytes.len() < 16 {
        return None;
    }
    let y = match read_field(bytes, 0, 4) { Some(v) => v, None => return None };
    let mo = match read_field(bytes, 5, 7) { Some(v) => v, None => return None };
    let d = match read_field(bytes, 8, 10) { Some(v) => v, None => return None };
    let h = match read_field(bytes, 11, 13) { Some(v) => v, None => return None };
    let mi = match read_field(bytes, 14, 16) { Some(v) => v, None => return None };
    let yy = y as u64;
    let total: u64 = ((yy * 366 + mo as u64 * 31 + d as u64) * 24 * 60) + h as u64 * 60 + mi as u64;
    Some(total as u32)
}

/// What a campaign request answers without launching anything: the
/// campaign in flight, read back, when there is one; else the one on file
/// when it answers for this content and the caller takes it. Nothing means
/// a campaign is to be launched.
pub fn campaign(in_flight: Option<Progress>, existing: Option<&Campaign>, want: &str, replay: Replay) -> (r: Option<Progress>)
    ensures
        in_flight is Some ==> r == in_flight,
        in_flight is None ==> r == (match existing {
            Some(c) => if replay == Replay::WhenChanged && c.fingerprint@ == want@ {
                Some(Progress::Fresh { survivors: c.survivors@.len() as usize })
            } else {
                None
            },
            None => None,
        }),
{
    match in_flight {
        Some(p) => Some(p),
        None => already_answered(existing, want, replay),
    }
}

/// The command a campaign is launched with, and where its log goes: the
/// stack's `mutation.sh` under `stack_at`, run in the clean copy of `HEAD`,
/// with the fingerprint and the touched paths. Refused when the container
/// holds no executable script (`script_present`), said here where the
/// message can be about the campaign.
pub fn launch(stack_at: &str, stack: &str, dir: &str, want: &str, touched: &[String], script_present: bool)
    -> (r: Result<(crate::harness::CommandSpec, String), MutantsError>)
    requires
        crate::text::bytes_end_on_char(want@, 7),
    ensures
        !script_present ==> (r matches Err(MutantsError::Launch(w)) && w@ == "there is no executable "@ + stack_at@ + "/"@
            + SCRIPT@ + " in the container — the mutation campaign is a deterministic command the `"@ + stack@
            + "` stack declares, in the project's home"@),
        script_present ==> (r matches Ok((spec, log)) && spec.program@ == stack_at@ + "/"@ + SCRIPT@
            && views(spec.args@) == seq![want@] + views(touched@) && spec.cwd@ == crate::exec::PROOF_AT@
            && spec.env@.len() == 0
            && log@ == path_join(path_join(dir@, "runs"@), "mutants-"@ + crate::text::take_bytes(want@, 7) + ".log"@)),
{
    let mut script = owned(stack_at);
    push_str(&mut script, "/");
    push_str(&mut script, SCRIPT);
    if !script_present {
        return Err(no_script(script.as_str(), stack));
    }
    let spec = crate::harness::CommandSpec {
        program: script,
        args: campaign_args(want, touched),
        cwd: owned(crate::exec::PROOF_AT),
        env: Vec::new(),
    };
    Ok((spec, campaign_log(dir, want)))
}

/// The campaign in flight, as it is recorded once launched.
pub fn launched(want: &str, head: &str, started_at: &str, spawned: crate::harness::Spawned, log: String, deadline_minutes: u32)
    -> (r: Running)
    ensures
        r.fingerprint@ == want@,
        r.head@ == head@,
        r.started_at@ == started_at@,
        r.container@ == spawned.container@,
        r.pid == spawned.pid,
        r.log@ == log@,
        r.deadline_minutes == deadline_minutes,
{
    Running {
        fingerprint: owned(want),
        head: owned(head),
        started_at: owned(started_at),
        container: spawned.container,
        pid: spawned.pid,
        log,
        deadline_minutes,
    }
}


/// What a manifest is: its lines in order, one per line.
pub open spec fn is_manifest(m: Seq<char>, lines: Seq<Seq<char>>) -> bool {
    exists|s: Seq<Seq<char>>| crate::text::sorted_le(s) && s.to_multiset() == lines.to_multiset() && m == join(s, "\n"@)
}

/// Two ordered lists of texts that hold the same texts, as many times
/// each, are the same list.
proof fn lemma_sorted_unique_order(a: Seq<Seq<char>>, b: Seq<Seq<char>>)
    requires
        crate::text::sorted_le(a),
        crate::text::sorted_le(b),
        a.to_multiset() == b.to_multiset(),
    ensures
        a == b,
    decreases a.len(),
{
    broadcast use vstd::seq_lib::group_to_multiset_ensures;
    vstd::seq_lib::to_multiset_len(a);
    vstd::seq_lib::to_multiset_len(b);
    if a.len() == 0 {
        assert(a =~= b);
    } else {
        assert(b.len() > 0);
        vstd::seq_lib::to_multiset_contains(a, a[0]);
        vstd::seq_lib::to_multiset_contains(b, b[0]);
        assert(a.to_multiset().count(a[0]) > 0);
        assert(b.contains(a[0]));
        assert(a.contains(b[0]));
        let k = choose|k: int| 0 <= k < b.len() && b[k] == a[0];
        let m = choose|m: int| 0 <= m < a.len() && a[m] == b[0];
        if k > 0 { assert(!lex_lt_alias(b[k], b[0])); }
        if m > 0 { assert(!lex_lt_alias(a[m], a[0])); }
        if a[0] != b[0] {
            crate::text::lemma_lex_total(a[0], b[0]);
        }
        assert(a[0] == b[0]);
        vstd::seq_lib::to_multiset_remove(a, 0);
        vstd::seq_lib::to_multiset_remove(b, 0);
        assert(a.remove(0) =~= a.drop_first());
        assert(b.remove(0) =~= b.drop_first());
        assert(crate::text::sorted_le(a.drop_first())) by {
            assert forall|i: int, j: int| 0 <= i < j < a.drop_first().len() implies
                !crate::text::lex_lt(#[trigger] a.drop_first()[j], #[trigger] a.drop_first()[i]) by {
                assert(a.drop_first()[j] == a[j + 1] && a.drop_first()[i] == a[i + 1]);
            }
        }
        assert(crate::text::sorted_le(b.drop_first())) by {
            assert forall|i: int, j: int| 0 <= i < j < b.drop_first().len() implies
                !crate::text::lex_lt(#[trigger] b.drop_first()[j], #[trigger] b.drop_first()[i]) by {
                assert(b.drop_first()[j] == b[j + 1] && b.drop_first()[i] == b[i + 1]);
            }
        }
        lemma_sorted_unique_order(a.drop_first(), b.drop_first());
        assert(a =~= seq![a[0]] + a.drop_first());
        assert(b =~= seq![b[0]] + b.drop_first());
    }
}

/// `lex_lt`, named here so that a sorted list's pairs are instantiated.
pub open spec fn lex_lt_alias(x: Seq<char>, y: Seq<char>) -> bool {
    crate::text::lex_lt(x, y)
}

/// A manifest depends on its lines and nothing else: not on the order the
/// paths were touched in, and so not on the history that produced the
/// tree. Two sets of lines that hold the same lines give the same
/// manifest, and with it the same fingerprint.
pub proof fn law_manifest_order_free(m1: Seq<char>, m2: Seq<char>, l1: Seq<Seq<char>>, l2: Seq<Seq<char>>)
    requires
        is_manifest(m1, l1),
        is_manifest(m2, l2),
        l1.to_multiset() == l2.to_multiset(),
    ensures
        m1 == m2,
{
    let s1 = choose|s: Seq<Seq<char>>| crate::text::sorted_le(s) && s.to_multiset() == l1.to_multiset() && m1 == join(s, "\n"@);
    let s2 = choose|s: Seq<Seq<char>>| crate::text::sorted_le(s) && s.to_multiset() == l2.to_multiset() && m2 == join(s, "\n"@);
    lemma_sorted_unique_order(s1, s2);
}


/// Two lists holding the same items, as many times each, still do once
/// each item is mapped.
proof fn lemma_permutation_map<A, B>(a: Seq<A>, b: Seq<A>, g: spec_fn(A) -> B)
    requires
        a.to_multiset() == b.to_multiset(),
    ensures
        a.map_values(g).to_multiset() == b.map_values(g).to_multiset(),
    decreases a.len(),
{
    broadcast use vstd::seq_lib::group_seq_properties, vstd::multiset::group_multiset_axioms;
    vstd::seq_lib::to_multiset_len(a);
    vstd::seq_lib::to_multiset_len(b);
    if a.len() == 0 {
        assert(a.map_values(g) =~= Seq::<B>::empty());
        assert(b.map_values(g) =~= Seq::<B>::empty());
    } else {
        let x = a.last();
        vstd::seq_lib::to_multiset_contains(a, x);
        assert(a.contains(x)) by {
            assert(a[a.len() - 1] == x);
        }
        assert(b.to_multiset().contains(x));
        vstd::seq_lib::to_multiset_contains(b, x);
        let i = choose|i: int| 0 <= i < b.len() && b[i] == x;
        let a1 = a.drop_last();
        let b1 = b.remove(i);
        assert(a1.push(x) =~= a);
        vstd::seq_lib::to_multiset_build(a1, x);
        vstd::seq_lib::to_multiset_remove(b, i);
        assert(a1.to_multiset() =~= b1.to_multiset());
        lemma_permutation_map(a1, b1, g);
        let ga = a.map_values(g);
        let gb = b.map_values(g);
        assert(a1.map_values(g).push(g(x)) =~= ga);
        vstd::seq_lib::to_multiset_build(a1.map_values(g), g(x));
        assert(gb.remove(i) =~= b1.map_values(g));
        vstd::seq_lib::to_multiset_remove(gb, i);
        assert(gb[i] == g(x));
        vstd::seq_lib::to_multiset_contains(gb, g(x));
        assert(gb.contains(g(x))) by {
            assert(gb[i] == g(x));
        }
        assert(ga.to_multiset() =~= gb.to_multiset());
    }
}

/// Each item of a list, the first time it comes, holds no item twice and
/// holds what the list holds.
proof fn lemma_first_occurrences(t: Seq<Seq<char>>)
    ensures
        crate::gate::first_occurrences(t).no_duplicates(),
        forall|p: Seq<char>| crate::gate::first_occurrences(t).contains(p) == t.contains(p),
    decreases t.len(),
{
    if t.len() > 0 {
        let init = t.drop_last();
        lemma_first_occurrences(init);
        let f = crate::gate::first_occurrences(init);
        assert forall|p: Seq<char>| crate::gate::first_occurrences(t).contains(p) == t.contains(p) by {
            if t.contains(p) {
                let k = choose|k: int| 0 <= k < t.len() && t[k] == p;
                if k < init.len() {
                    assert(init[k] == p);
                }
            }
            if init.contains(p) {
                let k = choose|k: int| 0 <= k < init.len() && init[k] == p;
                assert(t[k] == p);
            }
            if !init.contains(t.last()) {
                assert(f.push(t.last())[f.len() as int] == t.last());
                if f.push(t.last()).contains(p) {
                    let k = choose|k: int| 0 <= k < f.len() + 1 && f.push(t.last())[k] == p;
                    if k < f.len() {
                        assert(f[k] == p);
                    }
                }
                if f.contains(p) {
                    let k = choose|k: int| 0 <= k < f.len() && f[k] == p;
                    assert(f.push(t.last())[k] == p);
                }
            }
            assert(t[t.len() - 1] == t.last());
        }
    }
}

/// Two lists with no item twice and the same items hold them as many
/// times each.
proof fn lemma_same_items(a: Seq<Seq<char>>, b: Seq<Seq<char>>)
    requires
        a.no_duplicates(),
        b.no_duplicates(),
        forall|p: Seq<char>| a.contains(p) == b.contains(p),
    ensures
        a.to_multiset() == b.to_multiset(),
{
    a.lemma_multiset_has_no_duplicates();
    b.lemma_multiset_has_no_duplicates();
    assert forall|p: Seq<char>| a.to_multiset().count(p) == b.to_multiset().count(p) by {
        vstd::seq_lib::to_multiset_contains(a, p);
        vstd::seq_lib::to_multiset_contains(b, p);
        broadcast use vstd::multiset::group_multiset_axioms;
    }
    assert(a.to_multiset() =~= b.to_multiset());
}

/// A manifest's lines, when each blob is what git says of its path: each
/// path the first time it comes, with its blob.
proof fn lemma_manifest_lines(t: Seq<Seq<char>>, b: Seq<Seq<char>>, blob: spec_fn(Seq<char>) -> Seq<char>)
    requires
        b.len() >= t.len(),
        forall|i: int| 0 <= i < t.len() ==> #[trigger] b[i] == blob(t[i]),
    ensures
        manifest_lines(t, b) == crate::gate::first_occurrences(t).map_values(|p: Seq<char>| blob(p) + " "@ + p),
    decreases t.len(),
{
    let line = |p: Seq<char>| blob(p) + " "@ + p;
    if t.len() == 0 {
        assert(crate::gate::first_occurrences(t).map_values(line) =~= Seq::<Seq<char>>::empty());
    } else {
        lemma_manifest_lines(t.drop_last(), b, blob);
        let f = crate::gate::first_occurrences(t.drop_last());
        if !t.drop_last().contains(t.last()) {
            assert(b[t.len() - 1] == blob(t[t.len() - 1]));
            assert(f.push(t.last()).map_values(line) =~= f.map_values(line).push(line(t.last())));
        }
    }
}

/// A fingerprint does not depend on the order the touched paths come in,
/// nor on how often each comes, nor on which commit holds them: two lists
/// naming the same paths, each asked of a tree whose `HEAD` holds the same
/// blob (or none) for every path, give the same manifest — and so the same
/// digest.
pub proof fn law_fingerprint_order_free(
    t1: Seq<Seq<char>>,
    b1: Seq<Seq<char>>,
    t2: Seq<Seq<char>>,
    b2: Seq<Seq<char>>,
    blob: spec_fn(Seq<char>) -> Seq<char>,
    m1: Seq<char>,
    m2: Seq<char>,
)
    requires
        b1.len() == t1.len(),
        b2.len() == t2.len(),
        forall|i: int| 0 <= i < t1.len() ==> #[trigger] b1[i] == blob(t1[i]),
        forall|i: int| 0 <= i < t2.len() ==> #[trigger] b2[i] == blob(t2[i]),
        forall|p: Seq<char>| t1.contains(p) == t2.contains(p),
        is_manifest(m1, manifest_lines(t1, b1)),
        is_manifest(m2, manifest_lines(t2, b2)),
    ensures
        m1 == m2,
{
    let line = |p: Seq<char>| blob(p) + " "@ + p;
    lemma_manifest_lines(t1, b1, blob);
    lemma_manifest_lines(t2, b2, blob);
    let f1 = crate::gate::first_occurrences(t1);
    let f2 = crate::gate::first_occurrences(t2);
    lemma_first_occurrences(t1);
    lemma_first_occurrences(t2);
    assert forall|p: Seq<char>| f1.contains(p) == f2.contains(p) by {
        assert(f1.contains(p) == t1.contains(p));
        assert(f2.contains(p) == t2.contains(p));
        assert(t1.contains(p) == t2.contains(p));
    }
    lemma_same_items(f1, f2);
    lemma_permutation_map(f1, f2, line);
    law_manifest_order_free(m1, m2, manifest_lines(t1, b1), manifest_lines(t2, b2));
}

} // verus!
