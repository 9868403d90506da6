//! `FOLLOWUP_HQ.md`: what the HQ carries to the coder.
//!
//! The constat lives in the journal of the role that made it, and it is the
//! HQ that carries it to the coder, dated, in this file: an agent never
//! speaks to another agent. A security finding is only ever lifted by a
//! human, and the lift is written here as well as into the state. This
//! module only appends; the head of the file belongs to the human who framed
//! the mission. The blocks are written here; the program appends them.

use vstd::prelude::*;
use crate::harness::Role;
use crate::mission::Verdict;
use crate::text::{bytes_end_on_char, has_suffix, owned, prefix_bytes, push_str, take_bytes, trim, trimmed};

verus! {

/// Why the file could not be written.
#[derive(Debug)]
pub enum FollowupError {
    Io(String, String),
}

/// What a follow-up error says.
pub open spec fn followup_error_message(e: FollowupError) -> Seq<char> {
    match e {
        FollowupError::Io(p, why) => p@ + " could not be written: "@ + why@,
    }
}

impl FollowupError {
    /// What the error says.
    pub fn message(&self) -> (r: String)
        ensures
            r@ == followup_error_message(*self),
    {
        match self {
            FollowupError::Io(p, why) => {
                let mut m = owned(p.as_str());
                push_str(&mut m, " could not be written: ");
                push_str(&mut m, why.as_str());
                m
            },
        }
    }
}

/// The first twelve bytes of a commit, which is how every message names one.
pub open spec fn short(head: Seq<char>) -> Seq<char> {
    take_bytes(head, 12)
}

fn short_of(head: &str) -> (r: &str)
    requires
        bytes_end_on_char(head@, 12),
    ensures
        r@ == short(head@),
{
    prefix_bytes(head, 12)
}

/// The role's name, as the file writes it.
pub open spec fn slug_of(role: Role) -> Seq<char> {
    match role {
        Role::Coder => "coder"@,
        Role::Integrator => "integrator"@,
        Role::Security => "security"@,
    }
}

/// The verdict's name, as the file writes it.
pub open spec fn verdict_name(v: Verdict) -> Seq<char> {
    match v {
        Verdict::Integrated => "Integrated"@,
        Verdict::Broken => "Broken"@,
        Verdict::Clear => "Clear"@,
        Verdict::Findings => "Findings"@,
    }
}

/// A role's verdict carried to the coder: who concluded what on which
/// commit, then the report, or a line saying there was none.
pub open spec fn carry_block(date: Seq<char>, from: Role, verdict: Verdict, report: Seq<char>, head: Seq<char>) -> Seq<char> {
    let said = if trim(report).len() == 0 { "The verdict carried no report."@ } else { trim(report) };
    "## "@ + date + " — "@ + slug_of(from) + " concluded "@ + verdict_name(verdict) + " on "@ + short(head) + "\n\n"@
        + said + "\n"@
}

/// Carry a role's verdict to the coder, dated `date`.
pub fn carry(date: &str, from: Role, verdict: Verdict, report: &str, head: &str) -> (r: String)
    requires
        bytes_end_on_char(head@, 12),
    ensures
        r@ == carry_block(date@, from, verdict, report@, head@),
{
    let t = trimmed(report);
    let mut b = owned("## ");
    push_str(&mut b, date);
    push_str(&mut b, " — ");
    push_str(&mut b, crate::role::slug(from));
    push_str(&mut b, " concluded ");
    push_str(&mut b, verdict.name());
    push_str(&mut b, " on ");
    push_str(&mut b, short_of(head));
    push_str(&mut b, "\n\n");
    if t.as_str().unicode_len() == 0 {
        push_str(&mut b, "The verdict carried no report.");
    } else {
        push_str(&mut b, t.as_str());
    }
    push_str(&mut b, "\n");
    b
}

/// A human lifted a finding, with the reason they gave.
pub open spec fn lifted_block(date: Seq<char>, who: Seq<char>, finding: Seq<char>, why: Seq<char>, head: Seq<char>) -> Seq<char> {
    "## "@ + date + " — "@ + who + " lifted a security finding on "@ + short(head) + "\n\n**Finding:** "@ + finding
        + "\n\n**Accepted because:** "@ + why
        + "\n\n`VERDICT.json` stays `FINDINGS`. This file and `nunki`'s state are what\nrecord that a human lifted it, and `nunki push` reads it there.\n"@
}

/// Record that a human lifted a finding. The reason is not optional: a risk
/// accepted without one is not accepted, it is forgotten.
pub fn lifted(date: &str, who: &str, finding: &str, why: &str, head: &str) -> (r: String)
    requires
        bytes_end_on_char(head@, 12),
    ensures
        r@ == lifted_block(date@, who@, finding@, why@, head@),
{
    let mut b = owned("## ");
    push_str(&mut b, date);
    push_str(&mut b, " — ");
    push_str(&mut b, who);
    push_str(&mut b, " lifted a security finding on ");
    push_str(&mut b, short_of(head));
    push_str(&mut b, "\n\n**Finding:** ");
    push_str(&mut b, finding);
    push_str(&mut b, "\n\n**Accepted because:** ");
    push_str(&mut b, why);
    push_str(
        &mut b,
        "\n\n`VERDICT.json` stays `FINDINGS`. This file and `nunki`'s state are what\nrecord that a human lifted it, and `nunki push` reads it there.\n",
    );
    b
}

/// The human lifted what remained of a verdict.
pub open spec fn lifted_all_block(date: Seq<char>, who: Seq<char>, why: Seq<char>, head: Seq<char>) -> Seq<char> {
    "## "@ + date + " — "@ + who + " lifted the security verdict on "@ + short(head) + "\n\n**Accepted because:** "@ + why
        + "\n\nEverything the report still carried is lifted from here on. A new\ncommit makes this stale: a verdict, and its lift, are worth one\ncommit and no other.\n"@
}

/// Record that the human lifted what remained of a verdict.
pub fn lifted_all(date: &str, who: &str, why: &str, head: &str) -> (r: String)
    requires
        bytes_end_on_char(head@, 12),
    ensures
        r@ == lifted_all_block(date@, who@, why@, head@),
{
    let mut b = owned("## ");
    push_str(&mut b, date);
    push_str(&mut b, " — ");
    push_str(&mut b, who);
    push_str(&mut b, " lifted the security verdict on ");
    push_str(&mut b, short_of(head));
    push_str(&mut b, "\n\n**Accepted because:** ");
    push_str(&mut b, why);
    push_str(
        &mut b,
        "\n\nEverything the report still carried is lifted from here on. A new\ncommit makes this stale: a verdict, and its lift, are worth one\ncommit and no other.\n",
    );
    b
}

/// A mission called off, and why.
pub open spec fn ended_block(date: Seq<char>, who: Seq<char>, why: Seq<char>) -> Seq<char> {
    "## "@ + date + " — "@ + who + " called this mission off\n\n**Because:** "@ + why
        + "\n\nNothing here is deleted. `nunki mission archive` moves this folder\nunder `archive/`, and what it holds is the record of what was done.\n"@
}

/// Record that a mission was called off.
pub fn ended(date: &str, who: &str, why: &str) -> (r: String)
    ensures
        r@ == ended_block(date@, who@, why@),
{
    let mut b = owned("## ");
    push_str(&mut b, date);
    push_str(&mut b, " — ");
    push_str(&mut b, who);
    push_str(&mut b, " called this mission off\n\n**Because:** ");
    push_str(&mut b, why);
    push_str(
        &mut b,
        "\n\nNothing here is deleted. `nunki mission archive` moves this folder\nunder `archive/`, and what it holds is the record of what was done.\n",
    );
    b
}

/// The human took the mission back from a handover, and said what changed.
pub open spec fn retried_block(date: Seq<char>, who: Seq<char>, why: Seq<char>, was: Seq<char>) -> Seq<char> {
    "## "@ + date + " — "@ + who + " took this mission back\n\nIt had stopped on its own bounds: "@ + was
        + ". They are handed back whole, and this is what changed since:\n\n"@ + why
        + "\n\nRead it before the journal. Nothing in the tree moved on its own.\n"@
}

/// Record that the human took the mission back, and what changed: a retry
/// that tells the agent nothing hands it back the work it already failed.
pub fn retried(date: &str, who: &str, why: &str, was: &str) -> (r: String)
    ensures
        r@ == retried_block(date@, who@, why@, was@),
{
    let mut b = owned("## ");
    push_str(&mut b, date);
    push_str(&mut b, " — ");
    push_str(&mut b, who);
    push_str(&mut b, " took this mission back\n\nIt had stopped on its own bounds: ");
    push_str(&mut b, was);
    push_str(&mut b, ". They are handed back whole, and this is what changed since:\n\n");
    push_str(&mut b, why);
    push_str(&mut b, "\n\nRead it before the journal. Nothing in the tree moved on its own.\n");
    b
}

/// An instruction left for the next run.
pub open spec fn said_block(date: Seq<char>, who: Seq<char>, what: Seq<char>) -> Seq<char> {
    "## "@ + date + " — "@ + who + " left an instruction for the next run\n\n"@ + what + "\n"@
}

/// Record an instruction for the next run: there is no channel during a
/// run, and every role reads this file first.
pub fn said(date: &str, who: &str, what: &str) -> (r: String)
    ensures
        r@ == said_block(date@, who@, what@),
{
    let mut b = owned("## ");
    push_str(&mut b, date);
    push_str(&mut b, " — ");
    push_str(&mut b, who);
    push_str(&mut b, " left an instruction for the next run\n\n");
    push_str(&mut b, what);
    push_str(&mut b, "\n");
    b
}

/// What goes between the file and a new block: one blank line between
/// blocks, and never two, so a heading is never glued to the paragraph
/// before it.
pub open spec fn lead(existing: Seq<char>) -> Seq<char> {
    if existing.len() == 0 || has_suffix(existing, "\n\n"@) {
        ""@
    } else if has_suffix(existing, "\n"@) {
        "\n"@
    } else {
        "\n\n"@
    }
}

/// The file once `block` is appended to `existing`.
pub fn appended(existing: &str, block: &str) -> (r: String)
    ensures
        r@ == existing@ + lead(existing@) + block@,
{
    let mut r = owned(existing);
    if existing.unicode_len() == 0 || crate::text::str_ends_with(existing, "\n\n") {
        proof {
            reveal_strlit("");
        }
    } else if crate::text::str_ends_with(existing, "\n") {
        push_str(&mut r, "\n");
    } else {
        push_str(&mut r, "\n\n");
    }
    proof {
        reveal_strlit("");
        assert(""@ =~= Seq::<char>::empty());
    }
    push_str(&mut r, block);
    r
}

/// Appending only appends: the file's text before the call is kept whole
/// as the start of the new text, which ends with the block, and at most one
/// blank line's worth of newlines is put between them.
pub proof fn law_append_keeps_head(existing: Seq<char>, block: Seq<char>)
    ensures
        (existing + lead(existing) + block).take(existing.len() as int) == existing,
        (existing + lead(existing) + block).skip((existing + lead(existing) + block).len() - block.len()) == block,
        lead(existing).len() <= 2,
        forall|i: int| 0 <= i < lead(existing).len() ==> lead(existing)[i] == '\n',
{
    reveal_strlit("");
    reveal_strlit("\n");
    reveal_strlit("\n\n");
    let t = existing + lead(existing) + block;
    assert(t.take(existing.len() as int) =~= existing);
    assert(t.skip(t.len() - block.len()) =~= block);
}

} // verus!
