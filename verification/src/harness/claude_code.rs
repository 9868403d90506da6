//! The adapter for the command-line harness the agents run in: the command line
//! of a run, and what its stream-json log says.
//!
//! A run is started in print mode with structured output, its session
//! imposed with `--session-id` and resumed with `--resume`, and permissions
//! refused rather than asked. The log is one JSON event per line; the
//! program around this crate decodes each line into an [`Event`], and this
//! module reads the events.

use vstd::prelude::*;
use crate::harness::{CommandSpec, Exposure, Fault, GuardSetup, Outcome, Progress, RunRequest, RunState, Usage};
use crate::text::{
    chars_of, contains_text, decimal, extend_strings, lines, opt_view, owned, push_str, spec_decimal,
    str_contains, str_eq, string_of, text_lines, to_lowercase, lowercase, trim, trimmed, views,
};

verus! {

/// What is fixed per project or per mission, not per run.
#[derive(Debug, Clone, PartialEq, Eq)]
pub struct Config {
    /// The binary that runs the harness.
    pub program: String,
    /// Model to request, or the harness's default.
    pub model: Option<String>,
    /// Upper bound on agentic turns per run, or none.
    pub max_turns: Option<u32>,
    /// Where the harness keeps its config and sessions; `None` leaves the
    /// harness to its own default.
    pub config_dir: Option<String>,
}

/// The adapter, configured.
#[derive(Debug, Clone)]
pub struct ClaudeCode {
    pub config: Config,
}

/// The arguments every run carries: print mode, the stream-json log, and
/// permissions refused rather than asked.
pub open spec fn fixed_args() -> Seq<Seq<char>> {
    seq![
        "-p"@, "--output-format"@, "stream-json"@, "--verbose"@,
        "--permission-mode"@, "dontAsk"@, "--permission-prompts"@, "none"@,
    ]
}

/// The session a run opens, or the one it resumes.
pub open spec fn session_args(r: RunRequest) -> Seq<Seq<char>> {
    if r.resume { seq!["--resume"@, r.session.0@] } else { seq!["--session-id"@, r.session.0@] }
}

/// The model and the turn limit, when the configuration names them.
pub open spec fn config_args(c: Config) -> Seq<Seq<char>> {
    (match c.model {
        Some(m) => seq!["--model"@, m@],
        None => Seq::empty(),
    }) + (match c.max_turns {
        Some(n) => seq!["--max-turns"@, spec_decimal(n as nat)],
        None => Seq::empty(),
    })
}

/// The role prompt, when it travels as a system prompt file.
pub open spec fn exposure_args(e: Exposure) -> Seq<Seq<char>> {
    match e {
        Exposure::SystemPromptFile(p) => seq!["--append-system-prompt-file"@, p@],
        Exposure::UserMessage(_) => Seq::empty(),
    }
}

/// The sentence that starts every run: which lot, which attempt, where the
/// mission files are.
pub open spec fn spec_lot_base(r: RunRequest) -> Seq<char> {
    "Mission folder: "@ + r.workspace.mission_dir@ + ". Work on lot `"@ + r.lot@ + "` (attempt "@
        + spec_decimal(r.attempt as nat) + lot_rule()
}

/// What every run is told to do with its journal.
pub open spec fn lot_rule() -> Seq<char> {
    "). Read MISSION.md and JOURNAL.md first; write your ÉTAT DE REPRISE block in JOURNAL.md at every checkpoint and before you stop."@
}

/// The user message that starts a run; a role prompt given as a user
/// message comes first.
pub open spec fn spec_lot_prompt(r: RunRequest, e: Exposure) -> Seq<char> {
    match e {
        Exposure::UserMessage(m) => m@ + "\n\n"@ + spec_lot_base(r),
        Exposure::SystemPromptFile(_) => spec_lot_base(r),
    }
}

/// Every argument of a run, in order.
pub open spec fn spec_args(c: Config, r: RunRequest, g: GuardSetup, e: Exposure) -> Seq<Seq<char>> {
    fixed_args() + session_args(r) + config_args(c) + exposure_args(e) + views(g.args@)
        + seq![spec_lot_prompt(r, e)]
}

/// The variable that points the harness at its config directory.
pub open spec fn config_env() -> Seq<char> {
    "CLAUDE_CONFIG_DIR"@
}

/// Append `s` to a list of strings.
fn push_text(v: &mut Vec<String>, s: &str)
    ensures
        views(final(v)@) == views(old(v)@).push(s@),
{
    let ghost before = v@;
    v.push(owned(s));
    assert(views(v@) =~= views(before).push(s@));
}

/// The user message that starts a run.
fn lot_prompt(request: &RunRequest, exposure: &Exposure) -> (r: String)
    ensures
        r@ == spec_lot_prompt(*request, *exposure),
{
    let mut base = owned("Mission folder: ");
    push_str(&mut base, request.workspace.mission_dir.as_str());
    push_str(&mut base, ". Work on lot `");
    push_str(&mut base, request.lot.as_str());
    push_str(&mut base, "` (attempt ");
    push_str(&mut base, decimal(request.attempt as u64).as_str());
    push_str(&mut base, "). Read MISSION.md and JOURNAL.md first; write your ÉTAT DE REPRISE block in JOURNAL.md at every checkpoint and before you stop.");
    match exposure {
        Exposure::UserMessage(m) => {
            let mut r = m.clone();
            push_str(&mut r, "\n\n");
            push_str(&mut r, base.as_str());
            r
        },
        Exposure::SystemPromptFile(_) => base,
    }
}

impl ClaudeCode {
    /// Where a run's structured output goes: `<runs>/<session>.jsonl`.
    pub fn log_path(request: &RunRequest) -> (r: String)
        ensures
            r@ == crate::text::path_join(request.runs_dir@, request.session.0@ + ".jsonl"@),
    {
        let mut file = crate::text::owned(request.session.0.as_str());
        crate::text::push_str(&mut file, ".jsonl");
        crate::text::join_path(request.runs_dir.as_str(), file.as_str())
    }

    pub fn new(config: Config) -> (c: ClaudeCode)
        ensures
            c.config == config,
    {
        ClaudeCode { config }
    }

    /// The command line for a run: the configured program, in the run's
    /// tree, with the config directory in its environment when one is set.
    pub fn command(&self, request: &RunRequest, guards: &GuardSetup, exposure: &Exposure) -> (c: CommandSpec)
        ensures
            c.program@ == self.config.program@,
            views(c.args@) == spec_args(self.config, *request, *guards, *exposure),
            c.cwd@ == request.workspace.tree@,
            c.env@.len() == (if self.config.config_dir is Some { 1int } else { 0int }),
            self.config.config_dir matches Some(d) ==> c.env@[0].0@ == config_env() && c.env@[0].1@ == d@,
    {
        let mut args: Vec<String> = Vec::new();
        push_text(&mut args, "-p");
        push_text(&mut args, "--output-format");
        push_text(&mut args, "stream-json");
        push_text(&mut args, "--verbose");
        push_text(&mut args, "--permission-mode");
        push_text(&mut args, "dontAsk");
        push_text(&mut args, "--permission-prompts");
        push_text(&mut args, "none");
        let ghost a0 = views(args@);
        assert(a0 =~= fixed_args());
        if request.resume {
            push_text(&mut args, "--resume");
        } else {
            push_text(&mut args, "--session-id");
        }
        push_text(&mut args, request.session.0.as_str());
        let ghost a1 = views(args@);
        assert(a1 =~= fixed_args() + session_args(*request));
        match &self.config.model {
            Some(m) => {
                push_text(&mut args, "--model");
                push_text(&mut args, m.as_str());
            },
            None => {},
        }
        match self.config.max_turns {
            Some(n) => {
                push_text(&mut args, "--max-turns");
                let d = decimal(n as u64);
                push_text(&mut args, d.as_str());
            },
            None => {},
        }
        let ghost a2 = views(args@);
        assert(a2 =~= a1 + config_args(self.config));
        match exposure {
            Exposure::SystemPromptFile(p) => {
                push_text(&mut args, "--append-system-prompt-file");
                push_text(&mut args, p.as_str());
            },
            Exposure::UserMessage(_) => {},
        }
        let ghost a3 = views(args@);
        assert(a3 =~= a2 + exposure_args(*exposure));
        extend_strings(&mut args, guards.args.as_slice(), 0);
        assert(views(guards.args@).subrange(0, guards.args@.len() as int) =~= views(guards.args@));
        let prompt = lot_prompt(request, exposure);
        push_text(&mut args, prompt.as_str());
        assert(views(args@) =~= spec_args(self.config, *request, *guards, *exposure));
        let mut env: Vec<(String, String)> = Vec::new();
        match &self.config.config_dir {
            Some(d) => env.push((owned("CLAUDE_CONFIG_DIR"), d.clone())),
            None => {},
        }
        CommandSpec { program: self.config.program.clone(), args, cwd: request.workspace.tree.clone(), env }
    }
}


/// One content block of an assistant message in the log.
#[derive(Debug, Clone, PartialEq, Eq)]
pub struct Block {
    /// The block's `type`, when it is a string.
    pub kind: Option<String>,
    /// The tool's `name`, when it is a string.
    pub name: Option<String>,
    /// The tool's `input`, written back as compact JSON, when there is one.
    pub input: Option<String>,
}

/// One line of the log, decoded: the fields this module reads.
#[derive(Debug, Clone, PartialEq, Eq)]
pub struct Event {
    /// The event's `type`, when it is a string.
    pub kind: Option<String>,
    /// The event's `session_id`, when it is a string.
    pub session_id: Option<String>,
    /// The blocks of `message.content`, when that is an array.
    pub blocks: Vec<Block>,
    /// The event's `is_error`, when it is a boolean.
    pub is_error: Option<bool>,
    /// `usage.input_tokens`, when it is an unsigned integer.
    pub input_tokens: Option<u64>,
    /// `usage.output_tokens`, when it is an unsigned integer.
    pub output_tokens: Option<u64>,
    /// The event's `result`, when it is a string.
    pub result: Option<String>,
    /// The event's `api_error_status`, when it is an unsigned integer.
    pub api_error_status: Option<u64>,
    /// The whole event, written back as compact JSON.
    pub text: String,
}

/// What a log says so far.
#[derive(Debug, Clone, PartialEq, Eq)]
pub struct Parsed {
    pub progress: Progress,
    pub outcome: Option<Outcome>,
    pub session_id: Option<String>,
}

/// The lines of a log worth decoding: each line trimmed, the empty ones
/// left out.
pub open spec fn spec_stream_lines(ls: Seq<Seq<char>>) -> Seq<Seq<char>>
    decreases ls.len(),
{
    if ls.len() == 0 {
        Seq::empty()
    } else {
        let rest = spec_stream_lines(ls.drop_last());
        if trim(ls.last()).len() == 0 { rest } else { rest.push(trim(ls.last())) }
    }
}

/// The trimmed, non-empty lines of a log, in order.
pub fn stream_lines(text: &str) -> (r: Vec<String>)
    ensures
        views(r@) == spec_stream_lines(lines(text@)),
{
    let all = text_lines(text);
    let mut r: Vec<String> = Vec::new();
    let mut i: usize = 0;
    while i < all.len()
        invariant
            i <= all@.len(),
            views(all@) == lines(text@),
            views(r@) == spec_stream_lines(lines(text@).subrange(0, i as int)),
        decreases all@.len() - i,
    {
        let ghost ls = lines(text@);
        assert(ls.subrange(0, i + 1).drop_last() =~= ls.subrange(0, i as int));
        assert(ls.subrange(0, i + 1).last() == all@[i as int]@);
        let t = trimmed(all[i].as_str());
        if t.as_str().unicode_len() > 0 {
            push_text(&mut r, t.as_str());
        }
        i += 1;
    }
    assert(lines(text@).subrange(0, all@.len() as int) =~= lines(text@));
    r
}

/// The key two tool calls share when they are the same call: the tool's
/// name and its input.
pub open spec fn call_key(b: Block) -> Seq<char> {
    (match b.name { Some(n) => n@, None => Seq::empty() }) + ":"@
        + (match b.input { Some(i) => i@, None => Seq::empty() })
}

/// Whether a block is a tool call.
pub open spec fn is_tool_use(b: Block) -> bool {
    opt_view(b.kind) == Some("tool_use"@)
}

/// The state of a reading of the log.
pub struct Scan {
    pub events: nat,
    pub tool_calls: nat,
    pub longest: nat,
    pub repeat: nat,
    pub last: Option<Seq<char>>,
    pub session: Option<Seq<char>>,
    pub result: Option<Event>,
}

/// Before the first line.
pub open spec fn scan_start() -> Scan {
    Scan { events: 0, tool_calls: 0, longest: 0, repeat: 0, last: None, session: None, result: None }
}

/// One more block read: a tool call counts, and extends the run of
/// identical calls or starts a new one.
pub open spec fn step_block(s: Scan, b: Block) -> Scan {
    if is_tool_use(b) {
        let rep: nat = if s.last == Some(call_key(b)) { s.repeat + 1 } else { 1 };
        Scan {
            tool_calls: s.tool_calls + 1,
            repeat: rep,
            last: Some(call_key(b)),
            longest: if rep > s.longest { rep } else { s.longest },
            ..s
        }
    } else {
        s
    }
}

/// The blocks of one assistant message read in order.
pub open spec fn scan_blocks(s: Scan, bs: Seq<Block>) -> Scan
    decreases bs.len(),
{
    if bs.len() == 0 { s } else { step_block(scan_blocks(s, bs.drop_last()), bs.last()) }
}

/// One more line read. A line that did not decode counts for nothing; any
/// other counts as an event, names the session when it carries one, and is
/// read for tool calls when it is an assistant message or kept when it is
/// the result.
pub open spec fn step_event(s: Scan, e: Option<Event>) -> Scan {
    match e {
        None => s,
        Some(ev) => {
            let s1 = Scan {
                events: s.events + 1,
                session: if ev.session_id is Some { opt_view(ev.session_id) } else { s.session },
                ..s
            };
            if opt_view(ev.kind) == Some("assistant"@) {
                scan_blocks(s1, ev.blocks@)
            } else if opt_view(ev.kind) == Some("result"@) {
                Scan { result: Some(ev), ..s1 }
            } else {
                s1
            }
        },
    }
}

/// The lines read in order.
pub open spec fn scan(es: Seq<Option<Event>>) -> Scan
    decreases es.len(),
{
    if es.len() == 0 { scan_start() } else { step_event(scan(es.drop_last()), es.last()) }
}

/// How many lines decoded.
pub open spec fn decoded(es: Seq<Option<Event>>) -> nat
    decreases es.len(),
{
    if es.len() == 0 { 0 } else { decoded(es.drop_last()) + if es.last() is Some { 1nat } else { 0nat } }
}

/// Whether a line is a result event.
pub open spec fn is_result(e: Option<Event>) -> bool {
    e matches Some(ev) && opt_view(ev.kind) == Some("result"@)
}

proof fn lemma_blocks_keep_order(s: Scan, bs: Seq<Block>)
    requires
        s.repeat <= s.tool_calls,
        s.longest <= s.tool_calls,
    ensures
        scan_blocks(s, bs).repeat <= scan_blocks(s, bs).tool_calls,
        scan_blocks(s, bs).longest <= scan_blocks(s, bs).tool_calls,
        scan_blocks(s, bs).events == s.events,
        scan_blocks(s, bs).result == s.result,
    decreases bs.len(),
{
    if bs.len() > 0 {
        lemma_blocks_keep_order(s, bs.drop_last());
    }
}

/// What a reading of the log counts: an event per line that decoded, a
/// line that did not decode being skipped; never a longer run of identical
/// tool calls than there are tool calls; and a result exactly when some
/// decoded line is one, the last such.
pub proof fn law_stream_counts(es: Seq<Option<Event>>)
    ensures
        scan(es).events == decoded(es),
        scan(es).longest <= scan(es).tool_calls,
        scan(es).repeat <= scan(es).tool_calls,
        (scan(es).result is Some) == (exists|i: int| 0 <= i < es.len() && is_result(#[trigger] es[i])),
        scan(es).result matches Some(e) ==> exists|k: int| 0 <= k < es.len() && #[trigger] es[k] == Some(e) && is_result(es[k])
            && forall|j: int| k < j < es.len() ==> !is_result(#[trigger] es[j]),
    decreases es.len(),
{
    if es.len() > 0 {
        let init = es.drop_last();
        law_stream_counts(init);
        let s = scan(init);
        assert forall|i: int| 0 <= i < init.len() implies #[trigger] init[i] == es[i] by {}
        match es.last() {
            None => {
                assert(scan(es) == s);
                if s.result is Some {
                    let i = choose|i: int| 0 <= i < init.len() && is_result(#[trigger] init[i]);
                    assert(is_result(es[i]));
                }
                if let Some(e) = scan(es).result {
                    let k = choose|k: int| 0 <= k < init.len() && #[trigger] init[k] == Some(e) && is_result(init[k])
                        && forall|j: int| k < j < init.len() ==> !is_result(#[trigger] init[j]);
                    assert(es[k] == Some(e));
                    assert forall|j: int| k < j < es.len() implies !is_result(#[trigger] es[j]) by {
                        if j < init.len() { assert(!is_result(init[j])); } else { assert(es[j] == es.last()); }
                    }
                }
                if exists|i: int| 0 <= i < es.len() && is_result(#[trigger] es[i]) {
                    let i = choose|i: int| 0 <= i < es.len() && is_result(#[trigger] es[i]);
                    if i < init.len() { assert(is_result(init[i])); } else { assert(es[i] == es.last()); }
                }
            },
            Some(ev) => {
                let s1 = Scan {
                    events: s.events + 1,
                    session: if ev.session_id is Some { opt_view(ev.session_id) } else { s.session },
                    ..s
                };
                lemma_blocks_keep_order(s1, ev.blocks@);
                assert(scan(es) == step_event(s, es.last()));
                if is_result(es.last()) {
                    assert(es[es.len() - 1] == es.last());
                    assert(is_result(es[es.len() - 1]));
                    reveal_strlit("assistant");
                    reveal_strlit("result");
                    assert("assistant"@ != "result"@) by {
                        assert("assistant"@.len() != "result"@.len());
                    }
                    assert(opt_view(ev.kind) != Some("assistant"@));
                    assert(scan(es).result == Some(ev));
                    assert(es[es.len() - 1] == Some(ev));
                } else {
                    assert(scan(es).result == s.result);
                    if s.result is Some {
                        let i = choose|i: int| 0 <= i < init.len() && is_result(#[trigger] init[i]);
                        assert(is_result(es[i]));
                    }
                    if let Some(e) = scan(es).result {
                        let k = choose|k: int| 0 <= k < init.len() && #[trigger] init[k] == Some(e) && is_result(init[k])
                            && forall|j: int| k < j < init.len() ==> !is_result(#[trigger] init[j]);
                        assert(es[k] == Some(e));
                        assert forall|j: int| k < j < es.len() implies !is_result(#[trigger] es[j]) by {
                            if j < init.len() { assert(!is_result(init[j])); } else { assert(es[j] == es.last()); }
                        }
                    }
                    if exists|i: int| 0 <= i < es.len() && is_result(#[trigger] es[i]) {
                        let i = choose|i: int| 0 <= i < es.len() && is_result(#[trigger] es[i]);
                        if i < init.len() { assert(is_result(init[i])); } else { assert(es[i] == es.last()); }
                    }
                }
            },
        }
    }
}

/// How many tool calls the decoded lines hold, assistant messages or not.
pub open spec fn tool_blocks(es: Seq<Option<Event>>) -> nat
    decreases es.len(),
{
    if es.len() == 0 {
        0
    } else {
        tool_blocks(es.drop_last()) + match es.last() {
            Some(ev) => ev.blocks@.len(),
            None => 0,
        }
    }
}


/// What a result event says the run consumed; a count that is missing is
/// none.
pub open spec fn usage_of(e: Event) -> Usage {
    Usage {
        input_tokens: match e.input_tokens { Some(n) => n, None => 0 },
        output_tokens: match e.output_tokens { Some(n) => n, None => 0 },
    }
}

/// The statuses that are the harness's own trouble: authentication, a
/// timeout, a rate limit, a server error.
pub open spec fn harness_status(s: Option<u64>) -> bool {
    match s {
        Some(n) => n == 401 || n == 403 || n == 408 || n == 429 || (500 <= n && n <= 599),
        None => false,
    }
}

/// Words that, in an error's text, name the harness's own conditions:
/// quota, authentication, network.
pub open spec fn needles() -> Seq<Seq<char>> {
    seq![
        "rate limit"@, "rate_limit"@, "overloaded"@, "quota"@, "authentication"@, "unauthorized"@,
        "not logged in"@, "login"@, "credential"@, "network"@, "econn"@, "timed out"@, "timeout"@,
        "api error"@,
    ]
}

/// The text an error is classified by, in lower case: its `result` when
/// that is a string, else the whole event.
pub open spec fn error_text(e: Event) -> Seq<char> {
    match e.result {
        Some(r) => lowercase(r@),
        None => lowercase(e.text@),
    }
}

/// Whether an error is the harness's and not the mission's.
pub open spec fn harness_cause(e: Event) -> bool {
    harness_status(e.api_error_status)
        || exists|i: int| 0 <= i < needles().len() && #[trigger] contains_text(error_text(e), needles()[i])
}

/// What an error is reported with: its `result` when that is a string,
/// else the first 400 characters of the whole event.
pub open spec fn error_message(e: Event) -> Seq<char> {
    match e.result {
        Some(r) => r@,
        None => if e.text@.len() <= 400 { e.text@ } else { e.text@.take(400) },
    }
}

/// How a result event ends a run: without error, it finished; an error
/// that names the harness's own conditions is the harness's failure, which
/// waiting may mend; any other error is the mission's.
pub open spec fn classified(e: Event, o: Outcome) -> bool {
    if e.is_error != Some(true) {
        o == Outcome::Finished(usage_of(e))
    } else if harness_cause(e) {
        o matches Outcome::HarnessFailure(f) && f.why@ == error_message(e) && !f.authentication
    } else {
        o matches Outcome::MissionFailure(m) && m@ == error_message(e)
    }
}

/// Whether `text` holds one of the harness's words.
fn names_harness_condition(text: &str) -> (b: bool)
    ensures
        b == exists|i: int| 0 <= i < needles().len() && #[trigger] contains_text(text@, needles()[i]),
{
    let ns: Vec<&str> = vec![
        "rate limit", "rate_limit", "overloaded", "quota", "authentication", "unauthorized",
        "not logged in", "login", "credential", "network", "econn", "timed out", "timeout",
        "api error",
    ];
    assert(ns@.map_values(|n: &str| n@) =~= needles());
    let mut i: usize = 0;
    while i < ns.len()
        invariant
            i <= ns@.len(),
            ns@.map_values(|n: &str| n@) == needles(),
            forall|k: int| 0 <= k < i ==> !#[trigger] contains_text(text@, needles()[k]),
        decreases ns@.len() - i,
    {
        assert(ns@.map_values(|n: &str| n@)[i as int] == ns@[i as int]@);
        if str_contains(text, ns[i]) {
            return true;
        }
        i += 1;
    }
    false
}

/// The first `n` characters of `s`, or all of it when it is shorter.
fn first_chars(s: &str, n: usize) -> (r: String)
    ensures
        r@ == (if s@.len() <= n { s@ } else { s@.take(n as int) }),
{
    let v = chars_of(s);
    if v.len() <= n {
        let r = string_of(v.as_slice(), 0, v.len());
        assert(v@.subrange(0, v@.len() as int) =~= s@);
        r
    } else {
        string_of(v.as_slice(), 0, n)
    }
}

/// A result event into the way the run ended.
pub fn classify_result(event: &Event) -> (o: Outcome)
    ensures
        classified(*event, o),
{
    let is_error = match event.is_error {
        Some(b) => b,
        None => false,
    };
    let usage = Usage {
        input_tokens: match event.input_tokens { Some(n) => n, None => 0 },
        output_tokens: match event.output_tokens { Some(n) => n, None => 0 },
    };
    if !is_error {
        return Outcome::Finished(usage);
    }
    let text = match &event.result {
        Some(r) => to_lowercase(r.as_str()),
        None => to_lowercase(event.text.as_str()),
    };
    let mut cause = match event.api_error_status {
        Some(n) => n == 401 || n == 403 || n == 408 || n == 429 || (500 <= n && n <= 599),
        None => false,
    };
    if !cause {
        cause = names_harness_condition(text.as_str());
    }
    let message = match &event.result {
        Some(r) => r.clone(),
        None => first_chars(event.text.as_str(), 400),
    };
    assert(text@ == error_text(*event));
    assert(message@ == error_message(*event));
    assert(cause == harness_cause(*event));
    if cause {
        Outcome::HarnessFailure(Fault::transient(message))
    } else {
        Outcome::MissionFailure(message)
    }
}


/// Whether an optional text is `w`.
fn kind_is(k: &Option<String>, w: &str) -> (b: bool)
    ensures
        b == (opt_view(*k) == Some(w@)),
{
    match k {
        Some(t) => str_eq(t.as_str(), w),
        None => false,
    }
}

/// The key of a tool call.
fn key_of(b: &Block) -> (r: String)
    ensures
        r@ == call_key(*b),
{
    let mut r = match &b.name {
        Some(n) => n.clone(),
        None => String::new(),
    };
    push_str(&mut r, ":");
    match &b.input {
        Some(i) => push_str(&mut r, i.as_str()),
        None => {},
    }
    r
}

/// The tool calls of a prefix of the lines are no more than those of all
/// of them.
proof fn lemma_tool_blocks_prefix(es: Seq<Option<Event>>, i: int)
    requires
        0 <= i <= es.len(),
    ensures
        tool_blocks(es.take(i)) <= tool_blocks(es),
    decreases es.len(),
{
    if i == es.len() {
        assert(es.take(i) =~= es);
    } else {
        lemma_tool_blocks_prefix(es.drop_last(), i);
        assert(es.drop_last().take(i) =~= es.take(i));
    }
}

/// Read the decoded lines of a log, in order; `None` stands for a line
/// that did not decode, as the last one may not while the harness is
/// writing it.
pub fn parse_stream(events: &[Option<Event>]) -> (p: Parsed)
    requires
        tool_blocks(events@) <= u32::MAX,
    ensures
        p.progress.events == scan(events@).events,
        p.progress.tool_calls == scan(events@).tool_calls,
        p.progress.longest_repeat == scan(events@).longest,
        opt_view(p.session_id) == scan(events@).session,
        match scan(events@).result {
            None => p.outcome is None,
            Some(e) => p.outcome matches Some(o) && classified(e, o),
        },
{
    let mut n_events: u64 = 0;
    let mut tool_calls: u64 = 0;
    let mut longest: u32 = 0;
    let mut repeat: u32 = 0;
    let mut last: Option<String> = None;
    let mut session: Option<String> = None;
    let mut outcome: Option<Outcome> = None;
    let mut i: usize = 0;
    while i < events.len()
        invariant
            i <= events@.len(),
            tool_blocks(events@) <= u32::MAX,
            n_events == scan(events@.take(i as int)).events,
            n_events <= i,
            tool_calls == scan(events@.take(i as int)).tool_calls,
            tool_calls <= tool_blocks(events@.take(i as int)),
            longest == scan(events@.take(i as int)).longest,
            repeat == scan(events@.take(i as int)).repeat,
            longest <= tool_calls,
            repeat <= tool_calls,
            opt_view(last) == scan(events@.take(i as int)).last,
            opt_view(session) == scan(events@.take(i as int)).session,
            match scan(events@.take(i as int)).result {
                None => outcome is None,
                Some(e) => outcome matches Some(o) && classified(e, o),
            },
        decreases events@.len() - i,
    {
        let ghost es = events@;
        let ghost before = scan(es.take(i as int));
        assert(es.take(i + 1).drop_last() =~= es.take(i as int));
        assert(es.take(i + 1).last() == es[i as int]);
        proof { lemma_tool_blocks_prefix(es, i + 1); }
        match &events[i] {
            None => {},
            Some(ev) => {
                n_events = n_events + 1;
                match &ev.session_id {
                    Some(id) => { session = Some(id.clone()); },
                    None => {},
                }
                let ghost s1 = Scan {
                    events: before.events + 1,
                    session: if ev.session_id is Some { opt_view(ev.session_id) } else { before.session },
                    ..before
                };
                if kind_is(&ev.kind, "assistant") {
                    let mut j: usize = 0;
                    while j < ev.blocks.len()
                        invariant
                            j <= ev.blocks@.len(),
                            tool_blocks(es.take(i + 1)) <= u32::MAX,
                            tool_blocks(es.take(i + 1)) == tool_blocks(es.take(i as int)) + ev.blocks@.len(),
                            tool_calls == scan_blocks(s1, ev.blocks@.take(j as int)).tool_calls,
                            tool_calls <= tool_blocks(es.take(i as int)) + j,
                            longest == scan_blocks(s1, ev.blocks@.take(j as int)).longest,
                            repeat == scan_blocks(s1, ev.blocks@.take(j as int)).repeat,
                            longest <= tool_calls,
                            repeat <= tool_calls,
                            opt_view(last) == scan_blocks(s1, ev.blocks@.take(j as int)).last,
                            scan_blocks(s1, ev.blocks@.take(j as int)).events == s1.events,
                            scan_blocks(s1, ev.blocks@.take(j as int)).session == s1.session,
                            scan_blocks(s1, ev.blocks@.take(j as int)).result == s1.result,
                        decreases ev.blocks@.len() - j,
                    {
                        assert(ev.blocks@.take(j + 1).drop_last() =~= ev.blocks@.take(j as int));
                        assert(ev.blocks@.take(j + 1).last() == ev.blocks@[j as int]);
                        let b = &ev.blocks[j];
                        if kind_is(&b.kind, "tool_use") {
                            tool_calls = tool_calls + 1;
                            let key = key_of(b);
                            let same = match &last {
                                Some(l) => str_eq(l.as_str(), key.as_str()),
                                None => false,
                            };
                            if same {
                                repeat = repeat + 1;
                            } else {
                                repeat = 1;
                            }
                            last = Some(key);
                            if repeat > longest {
                                longest = repeat;
                            }
                        }
                        j += 1;
                    }
                    assert(ev.blocks@.take(ev.blocks@.len() as int) =~= ev.blocks@);
                } else if kind_is(&ev.kind, "result") {
                    outcome = Some(classify_result(ev));
                }
            },
        }
        i += 1;
    }
    assert(events@.take(events@.len() as int) =~= events@);
    Parsed {
        progress: Progress { events: n_events, tool_calls, longest_repeat: longest },
        outcome,
        session_id: session,
    }
}

/// What a run's state is, from its log and whether its process still
/// lives: the result, once the log has one; running while the process
/// lives; else a harness failure, the process having ended without a
/// result.
pub fn state(parsed: &Parsed, alive: bool) -> (r: RunState)
    ensures
        match parsed.outcome {
            Some(o) => r == RunState::Finished(o),
            None => if alive {
                r == RunState::Running(parsed.progress)
            } else {
                r matches RunState::Finished(Outcome::HarnessFailure(f))
                    && f.why@ == "the harness process ended without a result event"@ && !f.authentication
            },
        },
{
    match &parsed.outcome {
        Some(o) => RunState::Finished(o.copied()),
        None => if alive {
            RunState::Running(parsed.progress)
        } else {
            RunState::Finished(Outcome::HarnessFailure(Fault::transient(
                owned("the harness process ended without a result event"),
            )))
        },
    }
}


/// A line that did not decode changes nothing: a log read while the
/// harness is still writing its last line says what it said before.
pub proof fn law_undecoded_line_changes_nothing(es: Seq<Option<Event>>)
    ensures
        scan(es.push(None)) == scan(es),
{
    assert(es.push(None).drop_last() =~= es);
}

} // verus!
