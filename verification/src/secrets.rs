//! The secrets a human has ruled on.
//!
//! A secret is the one finding of the security gate that no agent can close:
//! removing it in a later commit leaves it in the branch's history. So the
//! gate stops and hands it over, and what a human decides is written in the
//! project's HQ, where gate 8 reads it next time. One ruling per line: the
//! finding's id, then why the risk is accepted. Reading and writing the file
//! are the program's part; what it holds, and what a ruling makes of it, is
//! decided here.

use vstd::prelude::*;
use crate::text::{
    body_of, chars_of, has_prefix, is_ws, lead_ws, trim_start, is_whitespace, join_path, join_strings, lines, next_where, no_newline,
    owned, path_join, push_str, str_contains, str_eq, string_of, strip_cr, text_lines, trim, trim_span, trimmed,
    views,
};

verus! {

/// Where the rulings live, inside the project's HQ.
pub const FILE: &'static str = "SECRETS.txt";

/// Where the container reads them, read-only: under a top-level directory
/// the image does not create, so no agent can write its own exceptions.
pub const AT: &'static str = "/nunki/secrets.txt";

/// The header a new file is born with.
pub const HEADER: &'static str = "# Secrets gate 8 found and a human has ruled on.\n#\n# One ruling per line: the finding's id, then why the risk is accepted.\n# Written by `nunki secret accept`, read back by `nunki secret list`, and\n# mounted read-only in the container so no agent can add to it.\n#\n# A secret has no fix — it is revoked, not upgraded — so a ruling here does\n# not expire on its own. Revoke the credential and `nunki secret forget` it.\n";

/// Why a ruling was refused.
#[derive(Debug)]
pub enum SecretError {
    SpaceInId(String),
    EmptyId,
    EmptyReason,
    ReasonIsNotALine,
    Unreadable(String, String),
    Unwritable(String, String),
}

/// What a secrets error says.
pub open spec fn secret_error_message(e: SecretError) -> Seq<char> {
    match e {
        SecretError::SpaceInId(id) => "the id "@ + crate::text::debug_quoted(id@)
            + " holds a space, and a ruling is one line of id then reason: nothing would tell them apart"@,
        SecretError::EmptyId => "the id is empty, and a ruling has to name what it rules on"@,
        SecretError::EmptyReason => "the reason is empty: a risk accepted without a reason is not accepted, it is forgotten"@,
        SecretError::ReasonIsNotALine => "the reason spans more than one line, and a ruling is one line"@,
        SecretError::Unreadable(p, why) => p@ + " could not be read: "@ + why@,
        SecretError::Unwritable(p, why) => p@ + " could not be written: "@ + why@,
    }
}

impl SecretError {
    /// What the error says.
    pub fn message(&self) -> (r: String)
        ensures
            r@ == secret_error_message(*self),
    {
        match self {
            SecretError::SpaceInId(id) => {
                let mut m = owned("the id ");
                push_str(&mut m, crate::text::quoted(id.as_str()).as_str());
                push_str(&mut m, " holds a space, and a ruling is one line of id then reason: nothing would tell them apart");
                m
            },
            SecretError::EmptyId => owned("the id is empty, and a ruling has to name what it rules on"),
            SecretError::EmptyReason => owned(
                "the reason is empty: a risk accepted without a reason is not accepted, it is forgotten",
            ),
            SecretError::ReasonIsNotALine => owned("the reason spans more than one line, and a ruling is one line"),
            SecretError::Unreadable(p, why) => {
                let mut m = owned(p.as_str());
                push_str(&mut m, " could not be read: ");
                push_str(&mut m, why.as_str());
                m
            },
            SecretError::Unwritable(p, why) => {
                let mut m = owned(p.as_str());
                push_str(&mut m, " could not be written: ");
                push_str(&mut m, why.as_str());
                m
            },
        }
    }
}

/// One ruling: the finding gate 8 named, and why the risk is accepted.
#[derive(Debug, Clone, PartialEq, Eq)]
pub struct Ruling {
    pub id: String,
    pub because: String,
}

/// Where this project's rulings live.
pub fn file(hq_root: &str) -> (r: String)
    ensures
        r@ == path_join(hq_root@, FILE@),
{
    join_path(hq_root, FILE)
}

/// White space, as `char::is_whitespace` reads it.
pub open spec fn white() -> spec_fn(char) -> bool {
    |c: char| is_ws(c)
}

/// A line read as a ruling: it names something and gives a reason.
/// Comments, blank lines, and a bare id with nothing after it are not
/// rulings, the last because it would accept a secret silently.
pub open spec fn spec_parse(line: Seq<char>) -> Option<(Seq<char>, Seq<char>)> {
    let t = trim(line);
    if t.len() == 0 || t[0] == '#' {
        None
    } else {
        let k = next_where(t, 0, white());
        let because = trim(t.skip(k + 1));
        if k >= t.len() || because.len() == 0 { None } else { Some((t.take(k), because)) }
    }
}

/// The rulings among `ls`, in order.
pub open spec fn rulings(ls: Seq<Seq<char>>) -> Seq<(Seq<char>, Seq<char>)>
    decreases ls.len(),
{
    if ls.len() == 0 {
        Seq::empty()
    } else {
        match spec_parse(ls.last()) {
            Some(r) => rulings(ls.drop_last()).push(r),
            None => rulings(ls.drop_last()),
        }
    }
}

/// The rulings, but those for `id`.
pub open spec fn without(rs: Seq<(Seq<char>, Seq<char>)>, id: Seq<char>) -> Seq<(Seq<char>, Seq<char>)>
    decreases rs.len(),
{
    if rs.len() == 0 {
        rs
    } else if rs.last().0 == id {
        without(rs.drop_last(), id)
    } else {
        without(rs.drop_last(), id).push(rs.last())
    }
}

/// Whether line `l` is a ruling on `id`.
pub open spec fn rules_on(l: Seq<char>, id: Seq<char>) -> bool {
    spec_parse(l) matches Some(r) && r.0 == id
}

/// The lines that are not rulings on `id`, in order.
pub open spec fn kept(ls: Seq<Seq<char>>, id: Seq<char>) -> Seq<Seq<char>>
    decreases ls.len(),
{
    if ls.len() == 0 {
        ls
    } else if rules_on(ls.last(), id) {
        kept(ls.drop_last(), id)
    } else {
        kept(ls.drop_last(), id).push(ls.last())
    }
}

/// The reason of the last ruling on `id` among `ls`, if there is one.
pub open spec fn last_reason(ls: Seq<Seq<char>>, id: Seq<char>) -> Option<Seq<char>>
    decreases ls.len(),
{
    if ls.len() == 0 {
        None
    } else {
        match spec_parse(ls.last()) {
            Some((i, because)) => if i == id { Some(because) } else { last_reason(ls.drop_last(), id) },
            None => last_reason(ls.drop_last(), id),
        }
    }
}

fn parse(line: &str) -> (r: Option<Ruling>)
    ensures
        match (r, spec_parse(line@)) {
            (Some(a), Some((i, b))) => a.id@ == i && a.because@ == b,
            (None, None) => true,
            _ => false,
        },
{
    let v = chars_of(line);
    let (a, b) = trim_span(v.as_slice(), 0, v.len());
    assert(v@.subrange(0, v@.len() as int) =~= line@);
    let ghost t = trim(line@);
    assert(v@.subrange(a as int, b as int) == t);
    if a == b || v[a] == '#' {
        return None;
    }
    let mut k = a;
    while k < b && !is_whitespace(v[k])
        invariant
            a <= k <= b <= v@.len(),
            t == v@.subrange(a as int, b as int),
            forall|j: int| a <= j < k ==> !is_ws(#[trigger] v@[j]),
        decreases b - k,
    {
        k += 1;
    }
    proof {
        assert forall|j: int| 0 <= j < k - a implies !white()(#[trigger] t[j]) by {
            assert(t[j] == v@[a + j]);
        }
        if k < b {
            assert(t[k - a] == v@[k as int]);
        }
        lemma_first_white(t, (k - a) as int);
    }
    if k == b {
        return None;
    }
    let (c, d) = trim_span(v.as_slice(), k + 1, b);
    assert(v@.subrange(k + 1, b as int) =~= t.skip(k - a + 1));
    if c == d {
        return None;
    }
    assert(v@.subrange(a as int, k as int) =~= t.take(k - a));
    Some(Ruling { id: string_of(v.as_slice(), a, k), because: string_of(v.as_slice(), c, d) })
}

proof fn lemma_first_white(t: Seq<char>, k: int)
    requires
        0 <= k <= t.len(),
        forall|j: int| 0 <= j < k ==> !white()(#[trigger] t[j]),
        k < t.len() ==> white()(t[k]),
    ensures
        next_where(t, 0, white()) == k,
{
    crate::text::lemma_next_where(t, 0, white());
    let w = next_where(t, 0, white());
    if w < k {
        assert(!white()(t[w]));
    } else if w > k {
        assert(!white()(t[k]));
    }
}

/// Every ruling a file's text holds, in the order it holds them. A file that
/// is not there holds none: nothing is accepted.
pub fn read(text: &str) -> (r: Vec<Ruling>)
    ensures
        r@.map_values(|x: Ruling| (x.id@, x.because@)) == rulings(lines(text@)),
{
    let ls = text_lines(text);
    let ghost lv = views(ls@);
    let mut r: Vec<Ruling> = Vec::new();
    let mut i: usize = 0;
    while i < ls.len()
        invariant
            i <= ls@.len(),
            lv == views(ls@),
            lv == lines(text@),
            r@.map_values(|x: Ruling| (x.id@, x.because@)) == rulings(lv.take(i as int)),
        decreases ls@.len() - i,
    {
        let ghost before = r@.map_values(|x: Ruling| (x.id@, x.because@));
        assert(lv.take(i + 1).drop_last() =~= lv.take(i as int));
        match parse(ls[i].as_str()) {
            Some(x) => {
                r.push(x);
                assert(r@.map_values(|x: Ruling| (x.id@, x.because@)) =~= before.push(spec_parse(lv[i as int])->0));
            },
            None => {},
        }
        i += 1;
    }
    assert(lv.take(i as int) =~= lv);
    r
}

/// What `accept` did, so the caller can say it rather than guess.
#[derive(Debug, PartialEq, Eq)]
pub enum Accepted {
    Added,
    /// The id was already ruled on, for this reason, and now it is not.
    Replaced(String),
}

/// Whether `s` holds white space.
pub open spec fn has_white(s: Seq<char>) -> bool {
    exists|i: int| 0 <= i < s.len() && is_ws(#[trigger] s[i])
}

/// Whether the reason spans more than one line.
pub open spec fn spans_lines(because: Seq<char>) -> bool {
    crate::text::contains_text(because, "\n"@) || crate::text::contains_text(because, "\r"@)
}

/// Whether a ruling on `id` for `because` can be written: an id, one word,
/// and a reason on one line.
pub open spec fn writable(id: Seq<char>, because: Seq<char>) -> bool {
    trim(id).len() > 0 && !has_white(trim(id)) && trim(because).len() > 0 && !spans_lines(trim(because))
}

/// The line a ruling is written as.
pub open spec fn ruling_line(id: Seq<char>, because: Seq<char>) -> Seq<char> {
    id + "  "@ + because
}

/// The text a file holds once `id` is ruled on for `because`: every line
/// that is not a ruling on `id`, then the new ruling. A file that is not
/// there starts with the header.
pub open spec fn accepted_text(text: Option<Seq<char>>, id: Seq<char>, because: Seq<char>) -> Seq<char> {
    let base = match text { Some(t) => t, None => HEADER@ };
    body_of(kept(lines(base), trim(id)).push(ruling_line(trim(id), trim(because))))
}

fn has_space(s: &str) -> (b: bool)
    ensures
        b == has_white(s@),
{
    let v = chars_of(s);
    let mut i: usize = 0;
    while i < v.len()
        invariant
            v@ == s@,
            i <= v@.len(),
            forall|j: int| 0 <= j < i ==> !is_ws(#[trigger] v@[j]),
        decreases v@.len() - i,
    {
        if is_whitespace(v[i]) {
            return true;
        }
        i += 1;
    }
    false
}

/// Rule on a finding: the text the file must hold afterwards (`text` is what
/// it holds now, nothing when there is no file yet), and whether a ruling was
/// replaced. An id that already has a ruling is replaced and not doubled:
/// two lines for one id would make which reason applies a matter of order.
pub fn accept(text: Option<&str>, id: &str, because: &str) -> (r: Result<(Accepted, String), SecretError>)
    ensures
        trim(id@).len() == 0 ==> r matches Err(SecretError::EmptyId),
        trim(id@).len() > 0 && has_white(trim(id@)) ==> (r matches Err(SecretError::SpaceInId(i)) && i@ == trim(id@)),
        trim(id@).len() > 0 && !has_white(trim(id@)) && trim(because@).len() == 0 ==> r matches Err(
            SecretError::EmptyReason,
        ),
        trim(id@).len() > 0 && !has_white(trim(id@)) && trim(because@).len() > 0 && spans_lines(trim(because@))
            ==> r matches Err(SecretError::ReasonIsNotALine),
        writable(id@, because@) ==> (r matches Ok((how, body)) && body@ == accepted_text(
            crate::text::opt_str(text),
            id@,
            because@,
        ) && match (how, last_reason(lines(match text { Some(t) => t@, None => HEADER@ }), trim(id@))) {
            (Accepted::Replaced(w), Some(x)) => w@ == x,
            (Accepted::Added, None) => true,
            _ => false,
        }),
{
    let id = trimmed(id);
    let because = trimmed(because);
    if id.as_str().unicode_len() == 0 {
        return Err(SecretError::EmptyId);
    }
    if has_space(id.as_str()) {
        return Err(SecretError::SpaceInId(id));
    }
    if because.as_str().unicode_len() == 0 {
        return Err(SecretError::EmptyReason);
    }
    if str_contains(because.as_str(), "\n") || str_contains(because.as_str(), "\r") {
        return Err(SecretError::ReasonIsNotALine);
    }
    let base: &str = match text {
        Some(t) => t,
        None => HEADER,
    };
    let ls = text_lines(base);
    let ghost lv = views(ls@);
    let mut was: Option<String> = None;
    let mut keep: Vec<String> = Vec::new();
    let mut i: usize = 0;
    while i < ls.len()
        invariant
            i <= ls@.len(),
            lv == views(ls@),
            lv == lines(base@),
            views(keep@) == kept(lv.take(i as int), id@),
            crate::text::opt_view(was) == last_reason(lv.take(i as int), id@),
        decreases ls@.len() - i,
    {
        assert(lv.take(i + 1).drop_last() =~= lv.take(i as int));
        assert(lv.take(i + 1).last() == lv[i as int]);
        let ghost before = views(keep@);
        match parse(ls[i].as_str()) {
            Some(x) => {
                if str_eq(x.id.as_str(), id.as_str()) {
                    was = Some(x.because);
                } else {
                    keep.push(owned(ls[i].as_str()));
                    assert(views(keep@) =~= before.push(lv[i as int]));
                }
            },
            None => {
                keep.push(owned(ls[i].as_str()));
                assert(views(keep@) =~= before.push(lv[i as int]));
            },
        }
        i += 1;
    }
    assert(lv.take(i as int) =~= lv);
    let mut line = owned(id.as_str());
    push_str(&mut line, "  ");
    push_str(&mut line, because.as_str());
    let ghost kv = views(keep@);
    keep.push(line);
    assert(views(keep@) =~= kv.push(ruling_line(id@, because@)));
    let mut body = join_strings(keep.as_slice(), "\n");
    push_str(&mut body, "\n");
    let how = match was {
        Some(w) => Accepted::Replaced(w),
        None => Accepted::Added,
    };
    Ok((how, body))
}

/// The text that holds every line of `base` but the rulings on `id`, and
/// whether there were any: nothing to write when there were none, which is
/// not an error, since a credential revoked twice is a human being careful.
pub open spec fn forgotten_text(base: Seq<char>, id: Seq<char>) -> Seq<char> {
    crate::text::join(kept(lines(base), trim(id)), "\n"@) + "\n"@
}

/// Drop the rulings on a finding. `text` is what the file holds, nothing
/// when there is no file; the answer is whether one was dropped, and then
/// the text the file must hold afterwards.
pub fn forget(text: Option<&str>, id: &str) -> (r: (bool, Option<String>))
    ensures
        match text {
            None => r == (false, None::<String>),
            Some(t) => {
                let dropped = last_reason(lines(t@), trim(id@)) is Some;
                r.0 == dropped && (dropped ==> (r.1 matches Some(b) && b@ == forgotten_text(t@, id@)))
                    && (!dropped ==> r.1 is None)
            },
        },
{
    let t = match text {
        Some(t) => t,
        None => return (false, None),
    };
    let id = trimmed(id);
    let ls = text_lines(t);
    let ghost lv = views(ls@);
    let mut dropped = false;
    let mut keep: Vec<String> = Vec::new();
    let mut i: usize = 0;
    while i < ls.len()
        invariant
            i <= ls@.len(),
            lv == views(ls@),
            lv == lines(t@),
            views(keep@) == kept(lv.take(i as int), id@),
            dropped == last_reason(lv.take(i as int), id@) is Some,
        decreases ls@.len() - i,
    {
        assert(lv.take(i + 1).drop_last() =~= lv.take(i as int));
        assert(lv.take(i + 1).last() == lv[i as int]);
        let ghost before = views(keep@);
        match parse(ls[i].as_str()) {
            Some(x) => {
                if str_eq(x.id.as_str(), id.as_str()) {
                    dropped = true;
                } else {
                    keep.push(owned(ls[i].as_str()));
                    assert(views(keep@) =~= before.push(lv[i as int]));
                }
            },
            None => {
                keep.push(owned(ls[i].as_str()));
                assert(views(keep@) =~= before.push(lv[i as int]));
            },
        }
        i += 1;
    }
    assert(lv.take(i as int) =~= lv);
    if !dropped {
        return (false, None);
    }
    let mut body = join_strings(keep.as_slice(), "\n");
    push_str(&mut body, "\n");
    (true, Some(body))
}

proof fn lemma_parse_strip_cr(l: Seq<char>)
    ensures
        spec_parse(strip_cr(l)) == spec_parse(l),
{
    crate::text::lemma_trim_strip_cr(l);
}

proof fn lemma_rulings_strip_cr(ls: Seq<Seq<char>>)
    ensures
        rulings(ls.map_values(|l: Seq<char>| strip_cr(l))) == rulings(ls),
    decreases ls.len(),
{
    if ls.len() > 0 {
        let m = ls.map_values(|l: Seq<char>| strip_cr(l));
        assert(m.drop_last() =~= ls.drop_last().map_values(|l: Seq<char>| strip_cr(l)));
        lemma_rulings_strip_cr(ls.drop_last());
        lemma_parse_strip_cr(ls.last());
    }
}

proof fn lemma_rulings_kept(ls: Seq<Seq<char>>, id: Seq<char>)
    ensures
        rulings(kept(ls, id)) == without(rulings(ls), id),
    decreases ls.len(),
{
    if ls.len() > 0 {
        lemma_rulings_kept(ls.drop_last(), id);
        let d = ls.drop_last();
        let rd = rulings(d);
        match spec_parse(ls.last()) {
            Some(r) => {
                assert(rd.push(r).drop_last() =~= rd);
                assert(rd.push(r).last() == r);
            },
            None => {},
        }
        if !rules_on(ls.last(), id) {
            let kd = kept(d, id);
            assert(kd.push(ls.last()).drop_last() =~= kd);
            assert(kd.push(ls.last()).last() == ls.last());
        }
    }
}

proof fn lemma_without_twice(rs: Seq<(Seq<char>, Seq<char>)>, id: Seq<char>)
    ensures
        without(without(rs, id), id) == without(rs, id),
    decreases rs.len(),
{
    if rs.len() > 0 {
        lemma_without_twice(rs.drop_last(), id);
        if rs.last().0 != id {
            assert(without(rs, id).drop_last() =~= without(rs.drop_last(), id));
        }
    }
}

proof fn lemma_kept_lines(ls: Seq<Seq<char>>, id: Seq<char>)
    requires
        forall|i: int| 0 <= i < ls.len() ==> no_newline(#[trigger] ls[i]),
    ensures
        forall|j: int| 0 <= j < kept(ls, id).len() ==> no_newline(#[trigger] kept(ls, id)[j]),
    decreases ls.len(),
{
    if ls.len() > 0 {
        let d = ls.drop_last();
        assert forall|i: int| 0 <= i < d.len() implies no_newline(#[trigger] d[i]) by {
            assert(d[i] == ls[i]);
        }
        lemma_kept_lines(d, id);
        assert(no_newline(ls[ls.len() - 1]));
        if !rules_on(ls.last(), id) {
            assert forall|j: int| 0 <= j < kept(ls, id).len() implies no_newline(#[trigger] kept(ls, id)[j]) by {
                if j < kept(d, id).len() {
                    assert(kept(ls, id)[j] == kept(d, id)[j]);
                }
            }
        }
    }
}

proof fn lemma_ruling_line(id: Seq<char>, because: Seq<char>)
    requires
        writable(id, because),
        trim(id)[0] != '#',
    ensures
        no_newline(ruling_line(trim(id), trim(because))),
        strip_cr(ruling_line(trim(id), trim(because))) == ruling_line(trim(id), trim(because)),
        spec_parse(ruling_line(trim(id), trim(because))) == Some((trim(id), trim(because))),
{
    let i = trim(id);
    let b = trim(because);
    let l = ruling_line(i, b);
    reveal_strlit("  ");
    reveal_strlit("\n");
    reveal_strlit("\r");
    crate::text::lemma_trim_ends(because);
    assert forall|k: int| 0 <= k < l.len() implies l[k] != '\n' by {
        if k < i.len() {
            assert(l[k] == i[k]);
            if l[k] == '\n' {
                assert(is_ws(i[k]));
            }
        } else if k >= i.len() + 2 {
            assert(l[k] == b[k - i.len() - 2]);
            if l[k] == '\n' {
                assert("\n"@ =~= seq![b[k - i.len() - 2]]);
                crate::text::lemma_contains_char(b, k - i.len() - 2, "\n"@);
            }
        }
    }
    assert(l.last() == b.last());
    if b.last() == '\r' {
        assert("\r"@ =~= seq![b[b.len() - 1]]);
        crate::text::lemma_contains_char(b, b.len() - 1, "\r"@);
    }
    assert(!is_ws(i[0]));
    crate::text::lemma_trim_fixed(l);
    let t = trim(l);
    assert(t == l);
    assert forall|k: int| 0 <= k < i.len() implies !white()(#[trigger] t[k]) by {
        assert(t[k] == i[k]);
    }
    assert(t[i.len() as int] == ' ');
    lemma_first_white(t, i.len() as int);
    let rest = t.skip((i.len() + 1) as int);
    assert(rest =~= seq![' '] + b);
    assert(rest[0] == ' ');
    assert(rest.last() == b.last());
    assert(lead_ws(rest) == 1 + lead_ws(rest.drop_first()));
    assert(rest.drop_first() =~= b);
    assert(lead_ws(b) == 0);
    assert(trim_start(rest) =~= b);
    crate::text::lemma_trim_fixed(b);
    assert(trim(rest) == b);
    assert(t.take(i.len() as int) =~= i);
}

/// After a ruling on `id` is accepted, the file's rulings are the ones it
/// held for other findings, in order, followed by the new one: a read gives
/// back what was written, once. (An id that begins with `#` is written as a
/// line that reads as a comment, and is left out.)
pub proof fn law_accept_then_read(text: Option<Seq<char>>, id: Seq<char>, because: Seq<char>)
    requires
        writable(id, because),
        trim(id)[0] != '#',
    ensures
        rulings(lines(accepted_text(text, id, because))) == without(
            rulings(lines(match text { Some(t) => t, None => HEADER@ })),
            trim(id),
        ).push((trim(id), trim(because))),
{
    let base = match text { Some(t) => t, None => HEADER@ };
    let ls = lines(base);
    let k = kept(ls, trim(id));
    let line = ruling_line(trim(id), trim(because));
    let all = k.push(line);
    crate::text::lemma_lines_no_newline(base, 0);
    lemma_kept_lines(ls, trim(id));
    lemma_ruling_line(id, because);
    assert forall|j: int| 0 <= j < all.len() implies no_newline(#[trigger] all[j]) by {
        if j < k.len() {
            assert(all[j] == k[j]);
        }
    }
    crate::text::lemma_lines_of_body(all);
    lemma_rulings_strip_cr(all);
    assert(all.drop_last() =~= k);
    lemma_rulings_kept(ls, trim(id));
}

/// After the rulings on `id` are forgotten, the file holds the ones it held
/// for every other finding, in order, and none for `id`.
pub proof fn law_forget_then_read(text: Seq<char>, id: Seq<char>)
    requires
        kept(lines(text), trim(id)).len() > 0,
    ensures
        rulings(lines(forgotten_text(text, id))) == without(rulings(lines(text)), trim(id)),
{
    let ls = lines(text);
    let k = kept(ls, trim(id));
    crate::text::lemma_lines_no_newline(text, 0);
    lemma_kept_lines(ls, trim(id));
    crate::text::lemma_lines_of_body(k);
    lemma_rulings_strip_cr(k);
    lemma_rulings_kept(ls, trim(id));
}

} // verus!
