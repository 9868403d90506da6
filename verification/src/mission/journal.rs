//! The line a coder run leaves to say how its lot ended. It lives in the
//! `ÉTAT DE REPRISE` block, which the agent rewrites before it stops anyway:
//!
//! ```text
//! Lot: L2 — done
//! Lot: L2 — failed: the integration test X does not pass
//! ```

use vstd::prelude::*;
use crate::gate::{resume_block, resume_span};
use crate::text::{
    chars_of, eq_ascii_ci, find_in, find_text, has_prefix, lines, owned, push_str, span_eq_ascii_ci,
    string_of, text_lines, trail_count, trim, trim_char, trim_char_span, trim_span, trim_start, views,
    is_ws, is_whitespace, lead_ws,
};

verus! {

/// How a run says its lot ended.
#[derive(Debug, Clone, PartialEq, Eq)]
pub enum LotLine {
    Done { lot: String },
    Failed { lot: String, reason: String },
}

/// A lot line, its words as text.
pub enum LotLineView {
    Done { lot: Seq<char> },
    Failed { lot: Seq<char>, reason: Seq<char> },
}

impl View for LotLine {
    type V = LotLineView;

    open spec fn view(&self) -> LotLineView {
        match self {
            LotLine::Done { lot } => LotLineView::Done { lot: lot@ },
            LotLine::Failed { lot, reason } => LotLineView::Failed { lot: lot@, reason: reason@ },
        }
    }
}

/// `t` without `n` characters at its start, when they are `prefix` with
/// ASCII case aside.
pub open spec fn strip_ci(t: Seq<char>, prefix: Seq<char>) -> Option<Seq<char>> {
    if t.len() >= prefix.len() && eq_ascii_ci(t.take(prefix.len() as int), prefix) {
        Some(t.subrange(prefix.len() as int, t.len() as int))
    } else {
        None
    }
}

/// Where the first separator lies: an em dash, an en dash or a hyphen
/// between spaces — lot identifiers carry hyphens, so a bare one separates
/// nothing.
pub open spec fn first_separator(rest: Seq<char>) -> Option<int> {
    let a = find_text(rest, " — "@);
    let b = find_text(rest, " – "@);
    let c = find_text(rest, " - "@);
    let ab = match (a, b) {
        (Some(x), Some(y)) => Some(if x <= y { x } else { y }),
        (Some(x), None) => Some(x),
        (None, y) => y,
    };
    match (ab, c) {
        (Some(x), Some(y)) => Some(if x <= y { x } else { y }),
        (Some(x), None) => Some(x),
        (None, y) => y,
    }
}

/// What follows `Lot:` on a line, once it is found.
pub open spec fn line_rest(line: Seq<char>) -> Option<Seq<char>> {
    let t0 = trim(line);
    let t1 = if has_prefix(t0, "- "@) || has_prefix(t0, "* "@) { t0.subrange(2, t0.len() as int) } else { t0 };
    strip_ci(trim_start(t1), "lot:"@)
}

/// One line, read as the grammar says. A list marker before it is
/// tolerated, and so are backquotes around the identifier.
pub open spec fn spec_parse(line: Seq<char>) -> Option<LotLineView> {
    match line_rest(line) {
        None => None,
        Some(rest) => spec_parse_rest(rest),
    }
}

/// What follows `Lot:`, read: the identifier, a separator, and how the lot
/// ended.
pub open spec fn spec_parse_rest(rest: Seq<char>) -> Option<LotLineView> {
    match first_separator(rest) {
            None => None,
            Some(at) => {
                let lot = trim(trim_char(trim(rest.take(at)), '`'));
                let status = trim(rest.subrange(at + 3, rest.len() as int));
                if lot.len() == 0 {
                    None
                } else if eq_ascii_ci(status.take(status.len() - trail_count(status, '.')), "done"@) {
                    Some(LotLineView::Done { lot })
                } else {
                    match strip_ci(status, "failed"@) {
                        None => None,
                        Some(after) => if !(after.len() == 0 || after[0] == ':' || is_ws(after[0])) {
                            None
                        } else {
                            let r0 = trim_start(after);
                            let r1 = if r0.len() > 0 && r0[0] == ':' { r0.drop_first() } else { r0 };
                            Some(LotLineView::Failed { lot, reason: trim(r1) })
                        },
                    }
                }
            },
    }
}

fn strip_ci_at(v: &[char], from: usize, to: usize, prefix: &str) -> (r: Option<usize>)
    requires
        from <= to <= v@.len(),
    ensures
        match (r, strip_ci(v@.subrange(from as int, to as int), prefix@)) {
            (Some(k), Some(rest)) => from <= k <= to && v@.subrange(k as int, to as int) == rest,
            (None, None) => true,
            _ => false,
        },
{
    let p = chars_of(prefix);
    let ghost t = v@.subrange(from as int, to as int);
    if to - from < p.len() {
        return None;
    }
    let k = from + p.len();
    assert(t.take(p@.len() as int) =~= v@.subrange(from as int, k as int));
    if span_eq_ascii_ci(v, from, k, p.as_slice()) {
        assert(t.subrange(p@.len() as int, t.len() as int) =~= v@.subrange(k as int, to as int));
        Some(k)
    } else {
        None
    }
}

fn min_opt(a: Option<usize>, b: Option<usize>) -> (r: Option<usize>)
    ensures
        r == match (a, b) {
            (Some(x), Some(y)) => Some(if x <= y { x } else { y }),
            (Some(x), None) => Some(x),
            (None, y) => y,
        },
{
    match (a, b) {
        (Some(x), Some(y)) => Some(if x <= y { x } else { y }),
        (Some(x), None) => Some(x),
        (None, y) => y,
    }
}

fn lead_ws_span(v: &[char], from: usize, to: usize) -> (r: usize)
    requires
        from <= to <= v@.len(),
    ensures
        from <= r <= to,
        v@.subrange(r as int, to as int) == trim_start(v@.subrange(from as int, to as int)),
{
    let mut a = from;
    while a < to && is_whitespace(v[a])
        invariant
            from <= a <= to <= v@.len(),
            forall|j: int| from <= j < a ==> is_ws(#[trigger] v@[j]),
        decreases to - a,
    {
        a += 1;
    }
    proof {
        let t = v@.subrange(from as int, to as int);
        assert forall|j: int| 0 <= j < a - from implies is_ws(#[trigger] t[j]) by {
            assert(t[j] == v@[from + j]);
        }
        if a < to {
            assert(t[a - from] == v@[a as int]);
        }
        crate::text::lemma_lead_ws_pub(t, a - from);
        assert(t.subrange((a - from) as int, t.len() as int) =~= v@.subrange(a as int, to as int));
    }
    a
}

fn find_rest(line: &str) -> (r: Option<Vec<char>>)
    ensures
        match (r, line_rest(line@)) {
            (Some(a), Some(b)) => a@ == b,
            (None, None) => true,
            _ => false,
        },
{
    let v = chars_of(line);
    let (a0, b0) = trim_span(v.as_slice(), 0, v.len());
    assert(v@.subrange(0, v@.len() as int) =~= line@);
    let ghost t0 = trim(line@);
    let dash = chars_of("- ");
    let star = chars_of("* ");
    let t0v = crate::text::slice_to_vec(v.as_slice(), a0, b0);
    let marked = crate::text::starts_with(t0v.as_slice(), dash.as_slice()) || crate::text::starts_with(t0v.as_slice(), star.as_slice());
    proof {
        reveal_strlit("- ");
        reveal_strlit("* ");
    }
    let a1 = if marked { a0 + 2 } else { a0 };
    assert(v@.subrange(a1 as int, b0 as int) =~= (if has_prefix(t0, "- "@) || has_prefix(t0, "* "@) { t0.subrange(2, t0.len() as int) } else { t0 }));
    let a2 = lead_ws_span(v.as_slice(), a1, b0);
    match strip_ci_at(v.as_slice(), a2, b0, "lot:") {
        Some(k) => Some(crate::text::slice_to_vec(v.as_slice(), k, b0)),
        None => None,
    }
}

fn read_status(rest: &Vec<char>, at: usize, lot: String) -> (r: Option<LotLine>)
    requires
        at + 3 <= rest.len(),
    ensures
        ({
            let status = trim(rest@.subrange(at + 3, rest@.len() as int));
            let want = if eq_ascii_ci(status.take(status.len() - trail_count(status, '.')), "done"@) {
                Some(LotLineView::Done { lot: lot@ })
            } else {
                match strip_ci(status, "failed"@) {
                    None => None,
                    Some(after) => if !(after.len() == 0 || after[0] == ':' || is_ws(after[0])) {
                        None
                    } else {
                        let r0 = trim_start(after);
                        let r1 = if r0.len() > 0 && r0[0] == ':' { r0.drop_first() } else { r0 };
                        Some(LotLineView::Failed { lot: lot@, reason: trim(r1) })
                    },
                }
            };
            match (r, want) {
                (Some(a), Some(b)) => a@ == b,
                (None, None) => true,
                _ => false,
            }
        }),
{
    let (sa, sb) = trim_span(rest.as_slice(), at + 3, rest.len());
    let status = crate::text::slice_to_vec(rest.as_slice(), sa, sb);
    let dots = crate::text::count_trail(status.as_slice(), '.');
    let done = chars_of("done");
    assert(status@.subrange(0, status@.len() - dots) =~= status@.take(status@.len() - dots));
    if span_eq_ascii_ci(status.as_slice(), 0, status.len() - dots, done.as_slice()) {
        return Some(LotLine::Done { lot });
    }
    assert(status@.subrange(0, status@.len() as int) =~= status@);
    let after_from = match strip_ci_at(status.as_slice(), 0, status.len(), "failed") {
        Some(k) => k,
        None => return None,
    };
    let ghost after = status@.subrange(after_from as int, status@.len() as int);
    if !(after_from == status.len() || status[after_from] == ':' || is_whitespace(status[after_from])) {
        assert(after[0] == status@[after_from as int]);
        return None;
    }
    let r0 = lead_ws_span(status.as_slice(), after_from, status.len());
    let r1 = if r0 < status.len() && status[r0] == ':' { r0 + 1 } else { r0 };
    let ghost r0v = status@.subrange(r0 as int, status@.len() as int);
    assert(status@.subrange(r1 as int, status@.len() as int) =~= (if r0v.len() > 0 && r0v[0] == ':' { r0v.drop_first() } else { r0v }));
    let (ra, rb) = trim_span(status.as_slice(), r1, status.len());
    let reason = string_of(status.as_slice(), ra, rb);
    Some(LotLine::Failed { lot, reason })
}

/// One line, read as the grammar says.
#[verifier::rlimit(40)]
pub fn parse(line: &str) -> (r: Option<LotLine>)
    ensures
        match (r, spec_parse(line@)) {
            (Some(a), Some(b)) => a@ == b,
            (None, None) => true,
            _ => false,
        },
{
    let rest = match find_rest(line) {
        Some(rest) => rest,
        None => return None,
    };
    let ghost restv = rest@;
    let s1 = chars_of(" — ");
    let s2 = chars_of(" – ");
    let s3 = chars_of(" - ");
    let at = match min_opt(min_opt(find_in(rest.as_slice(), s1.as_slice()), find_in(rest.as_slice(), s2.as_slice())), find_in(rest.as_slice(), s3.as_slice())) {
        Some(at) => at,
        None => return None,
    };
    proof {
        reveal_strlit(" — ");
        reveal_strlit(" – ");
        reveal_strlit(" - ");
        crate::text::lemma_find_text_bounds(restv, " — "@);
        crate::text::lemma_find_text_bounds(restv, " – "@);
        crate::text::lemma_find_text_bounds(restv, " - "@);
    }
    assert(at + 3 <= rest@.len());
    let (la, lb) = trim_span(rest.as_slice(), 0, at);
    let (lc, ld) = trim_char_span(rest.as_slice(), la, lb, '`');
    let (le, lf) = trim_span(rest.as_slice(), lc, ld);
    assert(rest@.subrange(0, at as int) =~= restv.take(at as int));
    if le == lf {
        return None;
    }
    let lot = string_of(rest.as_slice(), le, lf);
    read_status(&rest, at, lot)
}

/// The last line of `ls` that reads as a lot line.
pub open spec fn last_parsed(ls: Seq<Seq<char>>) -> Option<LotLineView>
    decreases ls.len(),
{
    if ls.len() == 0 {
        None
    } else {
        match spec_parse(ls.last()) {
            Some(v) => Some(v),
            None => last_parsed(ls.drop_last()),
        }
    }
}

/// The last `Lot:` line of the journal's resume block: only the block, since
/// a journal names every lot it ever finished further down.
pub open spec fn spec_lot_line(journal: Seq<char>) -> Option<LotLineView> {
    match resume_span(journal) {
        None => None,
        Some((x, y)) => last_parsed(lines(journal.subrange(x, y))),
    }
}

/// The last `Lot:` line of the journal's resume block, or `None` when there
/// is no block or no line in it that reads.
pub fn lot_line(journal: &str) -> (r: Option<LotLine>)
    ensures
        match (r, spec_lot_line(journal@)) {
            (Some(a), Some(b)) => a@ == b,
            (None, None) => true,
            _ => false,
        },
{
    let block = match resume_block(journal) {
        Some(b) => b,
        None => return None,
    };
    let ls = text_lines(block);
    let ghost all = views(ls@);
    assert(all.take(ls@.len() as int) =~= all);
    assert(spec_lot_line(journal@) == last_parsed(all));
    let mut i = ls.len();
    while i > 0
        invariant
            i <= ls@.len(),
            all == views(ls@),
            all.len() == ls@.len(),
            spec_lot_line(journal@) == last_parsed(all),
            last_parsed(all) == last_parsed(all.take(i as int)),
        decreases i,
    {
        let ghost before = all.take(i as int);
        assert(before.drop_last() =~= all.take(i - 1));
        assert(before.last() == ls@[i - 1]@);
        match parse(ls[i - 1].as_str()) {
            Some(found) => {
                assert(last_parsed(before) == spec_parse(before.last()));
                return Some(found);
            },
            None => {},
        }
        i -= 1;
    }
    assert(all.take(0) =~= Seq::<Seq<char>>::empty());
    None
}

/// What a judgement of the journal says of `lot`: done, or why not.
pub open spec fn spec_judge(journal: Seq<char>, lot: Seq<char>) -> Result<(), Seq<char>> {
    match spec_lot_line(journal) {
        Some(LotLineView::Done { lot: said }) => if said == lot {
            Ok(())
        } else {
            Err(other_lot_message(said, lot))
        },
        Some(LotLineView::Failed { lot: said, reason }) => if said != lot {
            Err(other_lot_message(said, lot))
        } else if reason.len() == 0 {
            Err("the run said lot "@ + lot + " failed, without saying why"@)
        } else {
            Err("the run said lot "@ + lot + " failed: "@ + reason)
        },
        None => Err(
            "the resume block carries no `Lot: "@ + lot
                + " — done` line: a run that does not say its lot is done has not finished it"@,
        ),
    }
}

/// The words for a block that reports another lot than the run's.
pub open spec fn other_lot_message(said: Seq<char>, lot: Seq<char>) -> Seq<char> {
    "the resume block reports lot "@ + said + ", and this run was lot "@ + lot
}

fn other_lot(said: &str, lot: &str) -> (r: String)
    ensures
        r@ == other_lot_message(said@, lot@),
{
    let mut m = owned("the resume block reports lot ");
    push_str(&mut m, said);
    push_str(&mut m, ", and this run was lot ");
    push_str(&mut m, lot);
    m
}

/// Whether the journal says `lot` is done; when it does not, why that is a
/// failed attempt, in words the next run and the human can act on.
pub fn judge(journal: &str, lot: &str) -> (r: Result<(), String>)
    ensures
        match (r, spec_judge(journal@, lot@)) {
            (Ok(()), Ok(())) => true,
            (Err(a), Err(b)) => a@ == b,
            _ => false,
        },
{
    match lot_line(journal) {
        Some(LotLine::Done { lot: said }) => {
            if crate::text::str_eq(said.as_str(), lot) {
                Ok(())
            } else {
                Err(other_lot(said.as_str(), lot))
            }
        },
        Some(LotLine::Failed { lot: said, reason }) => {
            if !crate::text::str_eq(said.as_str(), lot) {
                return Err(other_lot(said.as_str(), lot));
            }
            let mut m = owned("the run said lot ");
            push_str(&mut m, lot);
            if reason.as_str().unicode_len() == 0 {
                push_str(&mut m, " failed, without saying why");
            } else {
                push_str(&mut m, " failed: ");
                push_str(&mut m, reason.as_str());
            }
            Err(m)
        },
        None => {
            let mut m = owned("the resume block carries no `Lot: ");
            push_str(&mut m, lot);
            push_str(&mut m, " — done` line: a run that does not say its lot is done has not finished it");
            Err(m)
        },
    }
}

} // verus!
