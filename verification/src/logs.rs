//! `nunki logs <mission>`: what replaces watching a screen.
//!
//! The shape of a run's stream belongs to the harness, so its rendering is
//! the adapter's; this module decides which runs to read, in which order,
//! and which mission a bare `nunki logs` means. Listing and reading files is
//! the program's part.

use vstd::prelude::*;
use crate::text::{has_suffix, lex_lt, owned, sorted_unique, str_ends_with, strictly_sorted, text_less, chars_of, views};

verus! {

/// Why a mission's logs could not be read.
#[derive(Debug)]
pub enum LogsError {
    NoMission(String),
    NoRuns(String),
    Io(String, String),
}

/// One run's output.
#[derive(Debug, Clone, PartialEq, Eq)]
pub struct Run {
    /// The log file, so a reader who wants the raw stream knows where it is.
    pub log: String,
    /// The session the file is named after.
    pub session: String,
    /// The run's output, as the harness renders it.
    pub lines: Vec<String>,
}

/// The names of a runs directory that are run logs: `.jsonl`, and not the
/// stderr a run writes beside its stream.
pub open spec fn log_names(names: Seq<Seq<char>>) -> Seq<Seq<char>>
    decreases names.len(),
{
    if names.len() == 0 {
        names
    } else if has_suffix(names.last(), ".jsonl"@) {
        log_names(names.drop_last()).push(names.last())
    } else {
        log_names(names.drop_last())
    }
}

/// The run logs among a directory's names, each once, in order: a mission
/// is read forwards.
pub fn logs_in(names: &[String]) -> (r: Vec<String>)
    ensures
        strictly_sorted(views(r@)),
        views(r@).to_set() == log_names(views(names@)).to_set(),
{
    let mut found: Vec<String> = Vec::new();
    let mut i: usize = 0;
    while i < names.len()
        invariant
            i <= names@.len(),
            views(found@) == log_names(views(names@.take(i as int))),
        decreases names@.len() - i,
    {
        assert(views(names@.take(i + 1)).drop_last() =~= views(names@.take(i as int)));
        let ghost before = views(found@);
        if str_ends_with(names[i].as_str(), ".jsonl") {
            found.push(owned(names[i].as_str()));
            assert(views(found@) =~= before.push(names@[i as int]@));
        }
        i += 1;
    }
    assert(names@.take(i as int) =~= names@);
    sorted_unique(found.as_slice())
}

/// The index of the mission touched last among `seen` (each a mission and
/// when its state was last written), the first of them on a tie.
pub open spec fn latest(seen: Seq<(Seq<char>, Seq<char>)>, n: int) -> Option<int>
    decreases n,
{
    if n <= 0 {
        None
    } else {
        match latest(seen, n - 1) {
            None => Some(n - 1),
            Some(k) => if lex_lt(seen[k].1, seen[n - 1].1) { Some(n - 1) } else { Some(k) },
        }
    }
}

/// Which mission a `nunki logs` with no argument means: the one this HQ
/// touched last. Saying it out loud is the difference between a convenience
/// and a guess.
pub fn most_recent(seen: &[(String, String)]) -> (r: Option<String>)
    ensures
        match (r, latest(seen@.map_values(|p: (String, String)| (p.0@, p.1@)), seen@.len() as int)) {
            (Some(id), Some(k)) => id@ == seen@[k].0@,
            (None, None) => true,
            _ => false,
        },
{
    let ghost sv = seen@.map_values(|p: (String, String)| (p.0@, p.1@));
    let mut best: Option<usize> = None;
    let mut i: usize = 0;
    while i < seen.len()
        invariant
            i <= seen@.len(),
            sv == seen@.map_values(|p: (String, String)| (p.0@, p.1@)),
            match best {
                Some(b) => latest(sv, i as int) == Some(b as int) && b < i,
                None => latest(sv, i as int) is None && i == 0,
            },
        decreases seen@.len() - i,
    {
        best = match best {
            None => Some(i),
            Some(b) => {
                let a = chars_of(seen[b].1.as_str());
                let c = chars_of(seen[i].1.as_str());
                if text_less(a.as_slice(), c.as_slice()) { Some(i) } else { Some(b) }
            },
        };
        i += 1;
    }
    match best {
        Some(b) => Some(owned(seen[b].0.as_str())),
        None => None,
    }
}

} // verus!
