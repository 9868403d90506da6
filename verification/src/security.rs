//! The mechanical security of a project: the contract `security.sh` speaks,
//! and nothing about the tools that speak it.
//!
//! A stack's script runs the dependency audit and the secret scan its
//! ecosystem uses, and prints one JSON object per line. The HQ reads seven
//! fields and decides on them alone: it knows no lockfile, no advisory
//! database and no scanner.

use vstd::prelude::*;
use crate::text::{chars_of, owned, push_str, string_of, text_lines, trim, trim_span, views, lines};

verus! {

/// What a finding is about, and the only classes the HQ reasons on. A class
/// it does not know is read as `Other` rather than refused.
#[derive(Debug, Clone, Copy, PartialEq, Eq, Structural)]
pub enum Kind {
    /// A known vulnerability, with or without a fix.
    Vulnerability,
    /// An advisory that is not one: abandoned, unsound, withdrawn. Its `fix`
    /// is empty by nature.
    Unmaintained,
    /// A credential in the tree or in its history.
    Secret,
    /// What a static analysis says.
    Lint,
    /// Something the stack reports and this version has no name for.
    Other,
}

impl Kind {
    /// The class's name, as `{:?}` writes it.
    pub open spec fn spec_name(self) -> Seq<char> {
        match self {
            Kind::Vulnerability => "Vulnerability"@,
            Kind::Unmaintained => "Unmaintained"@,
            Kind::Secret => "Secret"@,
            Kind::Lint => "Lint"@,
            Kind::Other => "Other"@,
        }
    }

    fn name(self) -> (r: &'static str)
        ensures
            r@ == self.spec_name(),
    {
        match self {
            Kind::Vulnerability => "Vulnerability",
            Kind::Unmaintained => "Unmaintained",
            Kind::Secret => "Secret",
            Kind::Lint => "Lint",
            Kind::Other => "Other",
        }
    }
}

/// One line of the contract.
#[derive(Debug, Clone, PartialEq, Eq)]
pub struct Finding {
    /// What the ecosystem calls it: the name an acceptance is written against.
    pub id: String,
    pub kind: Kind,
    /// Where, for a human: a package and its version, or `file:line`. The
    /// contract's key is `where`.
    pub at: String,
    /// The direct dependency that brought it in, empty when the finding is
    /// already on one.
    pub via: String,
    /// What fixes it. Empty means none exists.
    pub fix: String,
    /// The reason it was accepted, empty when it was not.
    pub accepted: String,
    /// Whether the mission's base already carried it.
    pub was_at_base: bool,
}

impl Finding {
    /// New since the base and not accepted: what stops the mission.
    pub open spec fn spec_blocks(&self) -> bool {
        !self.was_at_base && self.accepted@.len() == 0
    }

    /// An acceptance a fix has overtaken.
    pub open spec fn spec_stale(&self) -> bool {
        self.accepted@.len() > 0 && self.fix@.len() > 0
    }

    /// The line a human acts on.
    pub open spec fn spec_say(&self) -> Seq<char> {
        let head = self.id@ + " ("@ + self.kind.spec_name() + ") "@ + self.at@;
        let via = if self.via@.len() > 0 { " via "@ + self.via@ } else { Seq::empty() };
        let fix = if self.fix@.len() > 0 { " — fixed in "@ + self.fix@ } else { Seq::empty() };
        head + via + fix
    }

    /// Does this stop the mission? New since the base and not accepted.
    /// What the repository already carried is not this branch's to answer.
    pub fn blocks(&self) -> (b: bool)
        ensures
            b == self.spec_blocks(),
    {
        !self.was_at_base && self.accepted.as_str().unicode_len() == 0
    }

    /// An acceptance a fix has overtaken: the exception was written because
    /// nothing could be done, and something can now.
    pub fn stale(&self) -> (b: bool)
        ensures
            b == self.spec_stale(),
    {
        self.accepted.as_str().unicode_len() > 0 && self.fix.as_str().unicode_len() > 0
    }

    /// One line a human can act on. `via` is named when there is one, for a
    /// transitive finding is not replaceable where it is.
    pub fn say(&self) -> (r: String)
        ensures
            r@ == self.spec_say(),
    {
        let mut said = self.id.clone();
        push_str(&mut said, " (");
        push_str(&mut said, self.kind.name());
        push_str(&mut said, ") ");
        push_str(&mut said, self.at.as_str());
        if self.via.as_str().unicode_len() > 0 {
            push_str(&mut said, " via ");
            push_str(&mut said, self.via.as_str());
        }
        if self.fix.as_str().unicode_len() > 0 {
            push_str(&mut said, " — fixed in ");
            push_str(&mut said, self.fix.as_str());
        }
        said
    }

    /// An acceptance no fix can ever overtake: an advisory that is not a
    /// vulnerability, or a secret ruled a false positive.
    pub fn permanent(&self) -> (b: bool)
        ensures
            b == (self.accepted@.len() > 0 && self.fix@.len() == 0),
    {
        self.accepted.as_str().unicode_len() > 0 && self.fix.as_str().unicode_len() == 0
    }
}

/// The lines of a script's output that carry the contract: those that begin
/// with `{` once trimmed, trimmed. Any other line is progress, and ignored.
pub open spec fn contract_lines(output: Seq<char>) -> Seq<Seq<char>> {
    lines(output).map_values(|l: Seq<char>| trim(l)).filter(|l: Seq<char>| l.len() > 0 && l[0] == '{')
}

/// The lines of what the script printed that the contract is read from, in
/// order; each is one JSON object, read by the program around this crate.
pub fn object_lines(output: &str) -> (r: Vec<String>)
    ensures
        views(r@) == contract_lines(output@),
{
    let all = text_lines(output);
    let ghost trimmed_all = lines(output@).map_values(|l: Seq<char>| trim(l));
    let mut r: Vec<String> = Vec::new();
    let mut i: usize = 0;
    while i < all.len()
        invariant
            views(all@) == lines(output@),
            trimmed_all == lines(output@).map_values(|l: Seq<char>| trim(l)),
            i <= all@.len(),
            views(r@) == trimmed_all.subrange(0, i as int).filter(|l: Seq<char>| l.len() > 0 && l[0] == '{'),
        decreases all@.len() - i,
    {
        let line = chars_of(all[i].as_str());
        let (a, b) = trim_span(line.as_slice(), 0, line.len());
        assert(line@.subrange(0, line@.len() as int) =~= line@);
        let t = string_of(line.as_slice(), a, b);
        assert(t@ == trimmed_all[i as int]);
        let keep = a < b && line[a] == '{';
        assert(keep == (t@.len() > 0 && t@[0] == '{'));
        let ghost before = r@;
        proof {
            assert(trimmed_all.subrange(0, i + 1).drop_last() =~= trimmed_all.subrange(0, i as int));
            reveal_with_fuel(Seq::filter, 2);
        }
        if keep {
            r.push(t);
            assert(views(r@) =~= views(before).push(trimmed_all[i as int]));
        }
        i += 1;
    }
    assert(trimmed_all.subrange(0, i as int) =~= trimmed_all);
    r
}

} // verus!
