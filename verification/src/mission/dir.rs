//! The mission folder, at the HQ.
//!
//! It lives under `<hq>/missions/<id>/`, outside the git tree, and is
//! mounted into the container: the HQ and the agent talk through its files
//! without a channel, the tree stays clean, and the folder survives the
//! slot. `MISSION.md` and `FOLLOWUP_HQ.md` belong to the human and the HQ
//! and are mounted read-only; `JOURNAL.md`, `PR.md` and `VERDICT.json` are
//! the agent's. Reading and writing them is the program's; this module
//! names them and says what a new folder holds.

use vstd::prelude::*;
use crate::mission::Header;
use crate::text::{
    chars_of, debug_quoted, find_in, find_text, has_prefix, join_path, owned, path_join, push_str, quoted, replace_all,
    replaced, string_of, trim_end, trimmed_end,
};

verus! {

/// The files of one mission.
#[derive(Debug, Clone, PartialEq, Eq)]
pub struct Paths {
    pub dir: String,
    pub mission: String,
    pub followup: String,
    pub journal: String,
    pub pr: String,
    pub verdict: String,
    /// The coder's answers to a mutation campaign's survivors.
    pub triage: String,
    /// The campaign itself, written by `hq` and read-only for the agent.
    pub mutants: String,
}

/// The folder of mission `id` under an HQ.
pub open spec fn mission_dir(hq_root: Seq<char>, id: Seq<char>) -> Seq<char> {
    path_join(path_join(hq_root, "missions"@), id)
}

impl Paths {
    /// The files of mission `id` under the HQ at `hq_root`.
    pub fn of(hq_root: &str, id: &str) -> (p: Paths)
        ensures
            p.dir@ == mission_dir(hq_root@, id@),
            p.mission@ == path_join(p.dir@, "MISSION.md"@),
            p.followup@ == path_join(p.dir@, "FOLLOWUP_HQ.md"@),
            p.journal@ == path_join(p.dir@, "JOURNAL.md"@),
            p.pr@ == path_join(p.dir@, "PR.md"@),
            p.verdict@ == path_join(p.dir@, "VERDICT.json"@),
            p.triage@ == path_join(p.dir@, crate::mutants::TRIAGE_FILE@),
            p.mutants@ == path_join(p.dir@, crate::mutants::FILE@),
    {
        let missions = join_path(hq_root, "missions");
        let dir = join_path(missions.as_str(), id);
        Paths {
            mission: join_path(dir.as_str(), "MISSION.md"),
            followup: join_path(dir.as_str(), "FOLLOWUP_HQ.md"),
            journal: join_path(dir.as_str(), "JOURNAL.md"),
            pr: join_path(dir.as_str(), "PR.md"),
            verdict: join_path(dir.as_str(), "VERDICT.json"),
            triage: join_path(dir.as_str(), crate::mutants::TRIAGE_FILE),
            mutants: join_path(dir.as_str(), crate::mutants::FILE),
            dir,
        }
    }
}

/// Why a mission folder could not be made or read.
#[derive(Debug, Clone, PartialEq, Eq)]
pub enum MissionDirError {
    Exists(String, String),
    Unknown(String, String),
    BadId(String),
    NoHeader(String),
    /// The header did not decode: where, and what the decoder said.
    BadHeader { path: String, why: String },
    Io(String, String),
}

/// What a mission folder error says.
pub open spec fn mission_dir_error_message(e: MissionDirError) -> Seq<char> {
    match e {
        MissionDirError::Exists(id, at) => "mission "@ + debug_quoted(id@) + " already exists at "@ + at@,
        MissionDirError::Unknown(id, at) => "no mission "@ + debug_quoted(id@) + " at "@ + at@,
        MissionDirError::BadId(id) =>
            "a mission id may hold letters, digits, - and _ only, and "@ + debug_quoted(id@) + " does not"@,
        MissionDirError::NoHeader(at) => at@ + " has no header: a mission starts with a `---` block"@,
        MissionDirError::BadHeader { path, why } => "the header of "@ + path@ + " is not valid: "@ + why@,
        MissionDirError::Io(at, why) => at@ + ": "@ + why@,
    }
}

impl MissionDirError {
    /// What the error says.
    pub fn message(&self) -> (r: String)
        ensures
            r@ == mission_dir_error_message(*self),
    {
        match self {
            MissionDirError::Exists(id, at) => {
                let mut m = owned("mission ");
                push_str(&mut m, quoted(id.as_str()).as_str());
                push_str(&mut m, " already exists at ");
                push_str(&mut m, at.as_str());
                m
            },
            MissionDirError::Unknown(id, at) => {
                let mut m = owned("no mission ");
                push_str(&mut m, quoted(id.as_str()).as_str());
                push_str(&mut m, " at ");
                push_str(&mut m, at.as_str());
                m
            },
            MissionDirError::BadId(id) => {
                let mut m = owned("a mission id may hold letters, digits, - and _ only, and ");
                push_str(&mut m, quoted(id.as_str()).as_str());
                push_str(&mut m, " does not");
                m
            },
            MissionDirError::NoHeader(at) => {
                let mut m = at.clone();
                push_str(&mut m, " has no header: a mission starts with a `---` block");
                m
            },
            MissionDirError::BadHeader { path, why } => {
                let mut m = owned("the header of ");
                push_str(&mut m, path.as_str());
                push_str(&mut m, " is not valid: ");
                push_str(&mut m, why.as_str());
                m
            },
            MissionDirError::Io(at, why) => {
                let mut m = at.clone();
                push_str(&mut m, ": ");
                push_str(&mut m, why.as_str());
                m
            },
        }
    }
}

/// An ASCII letter or digit.
pub open spec fn is_alnum(c: char) -> bool {
    ('a' <= c && c <= 'z') || ('A' <= c && c <= 'Z') || ('0' <= c && c <= '9')
}

/// Whether a text may name a mission: letters, digits, `-` and `_`, and a
/// letter or digit first.
pub open spec fn valid_id(id: Seq<char>) -> bool {
    &&& id.len() > 0
    &&& forall|i: int| 0 <= i < id.len() ==> is_alnum(#[trigger] id[i]) || id[i] == '-' || id[i] == '_'
    &&& is_alnum(id[0])
}

/// Refuse an id a mission cannot have.
pub fn check_id(id: &str) -> (r: Result<(), MissionDirError>)
    ensures
        valid_id(id@) ==> r is Ok,
        !valid_id(id@) ==> (r matches Err(MissionDirError::BadId(s)) && s@ == id@),
{
    let v = chars_of(id);
    let mut ok = v.len() > 0;
    let mut i: usize = 0;
    while i < v.len()
        invariant
            i <= v@.len(),
            v@ == id@,
            ok == (v@.len() > 0 && forall|j: int| 0 <= j < i ==> is_alnum(#[trigger] v@[j]) || v@[j] == '-' || v@[j] == '_'),
        decreases v@.len() - i,
    {
        let c = v[i];
        let good = ('a' <= c && c <= 'z') || ('A' <= c && c <= 'Z') || ('0' <= c && c <= '9') || c == '-' || c == '_';
        if !good {
            ok = false;
        }
        i += 1;
    }
    if ok {
        let c = v[0];
        ok = ('a' <= c && c <= 'z') || ('A' <= c && c <= 'Z') || ('0' <= c && c <= '9');
    }
    if ok { Ok(()) } else { Err(MissionDirError::BadId(owned(id))) }
}

/// The header of a mission file: the text between its opening `---` line
/// and the next line that starts with `---`.
pub open spec fn spec_front_matter(t: Seq<char>) -> Option<Seq<char>> {
    if has_prefix(t, "---\n"@) {
        let rest = t.subrange(4, t.len() as int);
        match find_text(rest, "\n---"@) {
            Some(k) => Some(rest.subrange(0, k)),
            None => None,
        }
    } else {
        None
    }
}

/// The header of a mission file, as the decoder reads it.
pub fn front_matter(text: &str) -> (r: Option<String>)
    ensures
        match (r, spec_front_matter(text@)) {
            (Some(a), Some(b)) => a@ == b,
            (None, None) => true,
            _ => false,
        },
{
    let v = chars_of(text);
    proof { reveal_strlit("---\n"); }
    if v.len() < 4 || !(v[0] == '-' && v[1] == '-' && v[2] == '-' && v[3] == '\n') {
        proof {
            if has_prefix(text@, "---\n"@) {
                assert(v@.subrange(0, 4)[0] == v@[0]);
                assert(v@.subrange(0, 4)[1] == v@[1]);
                assert(v@.subrange(0, 4)[2] == v@[2]);
                assert(v@.subrange(0, 4)[3] == v@[3]);
            }
        }
        return None;
    }
    assert(v@.subrange(0, 4) =~= "---\n"@);
    let rest: Vec<char> = crate::text::slice_to_vec(v.as_slice(), 4, v.len());
    let close = chars_of("\n---");
    match find_in(rest.as_slice(), close.as_slice()) {
        Some(k) => Some(string_of(rest.as_slice(), 0, k)),
        None => None,
    }
}

/// A new mission file: its header, written by the program, then the
/// human's prose without its trailing white space.
pub open spec fn spec_render(yaml: Seq<char>, prose: Seq<char>) -> Seq<char> {
    "---\n"@ + yaml + "---\n\n# Mission\n\n"@ + trim_end(prose) + "\n"@
}

/// The text of a new `MISSION.md`, from the header as the encoder writes
/// it and the prose the human wrote.
pub fn render(yaml: &str, prose: &str) -> (r: String)
    ensures
        r@ == spec_render(yaml@, prose@),
{
    let mut r = owned("---\n");
    push_str(&mut r, yaml);
    push_str(&mut r, "---\n\n# Mission\n\n");
    push_str(&mut r, trimmed_end(prose).as_str());
    push_str(&mut r, "\n");
    r
}

/// A new journal: its resume block says nothing has run, and the rule
/// for it follows.
pub open spec fn spec_journal(id: Seq<char>) -> Seq<char> {
    "# Journal — "@ + id + journal_rest()
}

/// Everything of a new journal after its title.
pub open spec fn journal_rest() -> Seq<char> {
    "\n\n## ÉTAT DE REPRISE\n\nNothing has run yet.\n\n> Rewrite the block above at every checkpoint and before stopping. A\n> run that ends without it has not honoured the run contract. The\n> coder ends it with `Lot: <lot> — done`, or `Lot: <lot> — failed: <why>`.\n"@
}

/// The text of a new `JOURNAL.md`.
pub fn journal(id: &str) -> (r: String)
    ensures
        r@ == spec_journal(id@),
{
    let mut r = owned("# Journal — ");
    push_str(&mut r, id);
    push_str(&mut r, "\n\n## ÉTAT DE REPRISE\n\nNothing has run yet.\n\n> Rewrite the block above at every checkpoint and before stopping. A\n> run that ends without it has not honoured the run contract. The\n> coder ends it with `Lot: <lot> — done`, or `Lot: <lot> — failed: <why>`.\n");
    r
}

/// The follow-up file's template, `{who}` standing for whom it addresses.
pub open spec fn followup_template() -> Seq<char> {
    "# Follow-up — for {who}\n\nFor {who} and the HQ. The agent reads this file and never writes it.\n\nAnything this mission cannot decide on its own is written here, dated and\naddressed to {who}. `hq` appends to it too: a verdict another role concluded\non, and a finding {who} has lifted.\n"@
}

/// Whom a mission's follow-up addresses: its arbiter, when it names one.
pub open spec fn addressee(h: Header) -> Seq<char> {
    match h.arbiter {
        Some(a) => a@,
        None => "the human"@,
    }
}

/// The text of a new `FOLLOWUP_HQ.md`, addressed to somebody by name when
/// the mission says who.
pub fn followup(header: &Header) -> (r: String)
    ensures
        r@ == replaced(followup_template(), "{who}"@, addressee(*header)),
{
    let who = match &header.arbiter {
        Some(a) => a.clone(),
        None => owned("the human"),
    };
    replace_all(
        "# Follow-up — for {who}\n\nFor {who} and the HQ. The agent reads this file and never writes it.\n\nAnything this mission cannot decide on its own is written here, dated and\naddressed to {who}. `hq` appends to it too: a verdict another role concluded\non, and a finding {who} has lifted.\n",
        "{who}",
        who.as_str(),
    )
}

} // verus!
