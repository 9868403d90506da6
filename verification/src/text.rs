//! Small text helpers every module shares: building strings, decimal
//! numbers, and reading a `&str` character by character.

use vstd::prelude::*;
use vstd::std_specs::iter::IteratorSpec;

verus! {

/// The decimal digits of `n`, most significant first, with no leading zero.
pub open spec fn spec_decimal(n: nat) -> Seq<char>
    decreases n,
{
    if n < 10 {
        seq![digit_char(n)]
    } else {
        spec_decimal(n / 10).push(digit_char(n % 10))
    }
}

/// The views of a list of strings.
pub open spec fn views(v: Seq<String>) -> Seq<Seq<char>> {
    v.map_values(|s: String| s@)
}

/// An optional string, as text.
pub open spec fn opt_view(o: Option<String>) -> Option<Seq<char>> {
    match o {
        Some(s) => Some(s@),
        None => None,
    }
}

/// An optional string slice, as text.
pub open spec fn opt_str(o: Option<&str>) -> Option<Seq<char>> {
    match o {
        Some(s) => Some(s@),
        None => None,
    }
}

/// The character for a single decimal digit.
pub open spec fn digit_char(d: nat) -> char {
    if d == 0 { '0' }
    else if d == 1 { '1' }
    else if d == 2 { '2' }
    else if d == 3 { '3' }
    else if d == 4 { '4' }
    else if d == 5 { '5' }
    else if d == 6 { '6' }
    else if d == 7 { '7' }
    else if d == 8 { '8' }
    else { '9' }
}

fn digit(d: u64) -> (c: char)
    requires
        d < 10,
    ensures
        c == digit_char(d as nat),
{
    if d == 0 { '0' }
    else if d == 1 { '1' }
    else if d == 2 { '2' }
    else if d == 3 { '3' }
    else if d == 4 { '4' }
    else if d == 5 { '5' }
    else if d == 6 { '6' }
    else if d == 7 { '7' }
    else if d == 8 { '8' }
    else { '9' }
}

/// Append one character to a string.
#[verifier::external_body]
pub(crate) fn push_char(s: &mut String, c: char)
    ensures
        final(s)@ == old(s)@.push(c),
{
    s.push(c);
}

/// Append a string slice to a string.
pub fn push_str(s: &mut String, t: &str)
    ensures
        final(s)@ == old(s)@ + t@,
{
    s.append(t);
}

/// A new string holding `t`.
pub fn owned(t: &str) -> (r: String)
    ensures
        r@ == t@,
{
    String::from_str(t)
}

/// `n`, written in decimal.
pub fn decimal(n: u64) -> (r: String)
    ensures
        r@ == spec_decimal(n as nat),
    decreases n,
{
    if n < 10 {
        let mut r = String::new();
        push_char(&mut r, digit(n));
        assert(r@ =~= seq![digit_char(n as nat)]);
        r
    } else {
        let mut r = decimal(n / 10);
        push_char(&mut r, digit(n % 10));
        r
    }
}

/// The octal digits of `n`, most significant first, with no leading zero.
pub open spec fn spec_octal(n: nat) -> Seq<char>
    decreases n,
{
    if n < 8 {
        seq![digit_char(n)]
    } else {
        spec_octal(n / 8).push(digit_char(n % 8))
    }
}

/// `n`, written in octal.
pub fn octal(n: u64) -> (r: String)
    ensures
        r@ == spec_octal(n as nat),
    decreases n,
{
    if n < 8 {
        let mut r = String::new();
        push_char(&mut r, digit(n));
        assert(r@ =~= seq![digit_char(n as nat)]);
        r
    } else {
        let mut r = octal(n / 8);
        push_char(&mut r, digit(n % 8));
        r
    }
}

/// Whether path `p` is `base` or under it, component by component, as
/// `Path::starts_with` says.
pub uninterp spec fn path_within(p: Seq<char>, base: Seq<char>) -> bool;

/// Whether path `p` is `base` or under it, as `Path::starts_with` says.
#[verifier::external_body]
pub(crate) fn is_within(p: &str, base: &str) -> (b: bool)
    ensures
        b == path_within(p@, base@),
{
    std::path::Path::new(p).starts_with(base)
}

/// A copy of a list of strings.
pub fn clone_strings(v: &Vec<String>) -> (r: Vec<String>)
    ensures
        r@ == v@,
{
    let mut r: Vec<String> = Vec::new();
    let mut i: usize = 0;
    while i < v.len()
        invariant
            i <= v@.len(),
            r@ == v@.subrange(0, i as int),
        decreases v@.len() - i,
    {
        r.push(v[i].clone());
        i += 1;
        assert(r@ =~= v@.subrange(0, i as int));
    }
    assert(r@ =~= v@);
    r
}

/// The characters of `s`, in order.
pub fn chars_of(s: &str) -> (v: Vec<char>)
    ensures
        v@ == s@,
{
    broadcast use vstd::string::group_string_axioms;
    let mut it = s.chars();
    let mut v: Vec<char> = Vec::new();
    loop
        invariant
            v@ + IteratorSpec::remaining(&it) == s@,
            IteratorSpec::obeys_prophetic_iter_laws(&it),
        decreases s@.len() - v@.len(),
    {
        let ghost before = IteratorSpec::remaining(&it);
        match it.next() {
            Some(c) => {
                v.push(c);
                assert(v@ + IteratorSpec::remaining(&it) =~= s@) by {
                    assert(before =~= seq![c] + IteratorSpec::remaining(&it));
                }
            },
            None => {
                assert(v@ =~= s@);
                return v;
            },
        }
    }
}

/// The string made of `v[from..to]`.
pub fn string_of(v: &[char], from: usize, to: usize) -> (r: String)
    requires
        from <= to <= v@.len(),
    ensures
        r@ == v@.subrange(from as int, to as int),
{
    let mut r = String::new();
    let mut i = from;
    while i < to
        invariant
            from <= i <= to <= v@.len(),
            r@ == v@.subrange(from as int, i as int),
        decreases to - i,
    {
        push_char(&mut r, v[i]);
        i += 1;
        assert(r@ =~= v@.subrange(from as int, i as int));
    }
    r
}

/// Whether `s` begins with `p`.
pub fn starts_with(s: &[char], p: &[char]) -> (b: bool)
    ensures
        b == (p@.len() <= s@.len() && s@.subrange(0, p@.len() as int) == p@),
{
    if p.len() > s.len() {
        return false;
    }
    let mut i: usize = 0;
    while i < p.len()
        invariant
            p@.len() <= s@.len(),
            i <= p@.len(),
            s@.subrange(0, i as int) == p@.subrange(0, i as int),
        decreases p@.len() - i,
    {
        if s[i] != p[i] {
            assert(s@.subrange(0, p@.len() as int)[i as int] != p@[i as int]);
            return false;
        }
        i += 1;
        assert(s@.subrange(0, i as int) =~= p@.subrange(0, i as int));
    }
    assert(p@.subrange(0, p@.len() as int) =~= p@);
    true
}

/// Unicode's `White_Space` property, which `char::is_whitespace` reads.
pub open spec fn is_ws(c: char) -> bool {
    ||| c == '\t' || c == '\n' || c == '\u{0B}' || c == '\u{0C}' || c == '\r' || c == ' '
    ||| c == '\u{85}' || c == '\u{A0}' || c == '\u{1680}'
    ||| ('\u{2000}' <= c && c <= '\u{200A}')
    ||| c == '\u{2028}' || c == '\u{2029}' || c == '\u{202F}' || c == '\u{205F}' || c == '\u{3000}'
}

/// Whether `c` is white space.
pub fn is_whitespace(c: char) -> (b: bool)
    ensures
        b == is_ws(c),
{
    c == '\t' || c == '\n' || c == '\u{0B}' || c == '\u{0C}' || c == '\r' || c == ' '
        || c == '\u{85}' || c == '\u{A0}' || c == '\u{1680}'
        || ('\u{2000}' <= c && c <= '\u{200A}')
        || c == '\u{2028}' || c == '\u{2029}' || c == '\u{202F}' || c == '\u{205F}' || c == '\u{3000}'
}

/// How many white-space characters `s` begins with.
pub open spec fn lead_ws(s: Seq<char>) -> nat
    decreases s.len(),
{
    if s.len() > 0 && is_ws(s[0]) { 1 + lead_ws(s.drop_first()) } else { 0 }
}

/// How many white-space characters `s` ends with.
pub open spec fn trail_ws(s: Seq<char>) -> nat
    decreases s.len(),
{
    if s.len() > 0 && is_ws(s.last()) { 1 + trail_ws(s.drop_last()) } else { 0 }
}

/// `s` without its leading white space.
pub open spec fn trim_start(s: Seq<char>) -> Seq<char> {
    s.subrange(lead_ws(s) as int, s.len() as int)
}

/// `s` without its trailing white space.
pub open spec fn trim_end(s: Seq<char>) -> Seq<char> {
    s.subrange(0, s.len() - trail_ws(s))
}

/// `s` without white space at either end.
pub open spec fn trim(s: Seq<char>) -> Seq<char> {
    trim_end(trim_start(s))
}

proof fn lemma_lead_ws(s: Seq<char>, i: int)
    requires
        0 <= i <= s.len(),
        forall|j: int| 0 <= j < i ==> is_ws(#[trigger] s[j]),
        i == s.len() || !is_ws(s[i]),
    ensures
        lead_ws(s) == i,
    decreases i,
{
    if i > 0 {
        lemma_lead_ws(s.drop_first(), i - 1);
    }
}

proof fn lemma_trail_ws(s: Seq<char>, i: int)
    requires
        0 <= i <= s.len(),
        forall|j: int| s.len() - i <= j < s.len() ==> is_ws(#[trigger] s[j]),
        i == s.len() || !is_ws(s[s.len() - 1 - i]),
    ensures
        trail_ws(s) == i,
    decreases i,
{
    if i > 0 {
        lemma_trail_ws(s.drop_last(), i - 1);
    }
}

/// The bounds of `s[from..to]` without white space at either end.
pub fn trim_span(s: &[char], from: usize, to: usize) -> (r: (usize, usize))
    requires
        from <= to <= s@.len(),
    ensures
        from <= r.0 <= r.1 <= to,
        s@.subrange(r.0 as int, r.1 as int) == trim(s@.subrange(from as int, to as int)),
{
    let ghost t = s@.subrange(from as int, to as int);
    let mut a = from;
    while a < to && is_whitespace(s[a])
        invariant
            from <= a <= to <= s@.len(),
            forall|j: int| from <= j < a ==> is_ws(#[trigger] s@[j]),
        decreases to - a,
    {
        a += 1;
    }
    proof {
        lemma_lead_ws(t, a - from);
    }
    let ghost u = trim_start(t);
    assert(u =~= s@.subrange(a as int, to as int));
    let mut b = to;
    while b > a && is_whitespace(s[b - 1])
        invariant
            a <= b <= to <= s@.len(),
            forall|j: int| b <= j < to ==> is_ws(#[trigger] s@[j]),
        decreases b - a,
    {
        b -= 1;
    }
    proof {
        assert forall|j: int| u.len() - (to - b) <= j < u.len() implies is_ws(#[trigger] u[j]) by {
            assert(u[j] == s@[a + j]);
        }
        if to - b < u.len() {
            assert(u[u.len() - 1 - (to - b)] == s@[b - 1]);
        }
        lemma_trail_ws(u, to - b);
    }
    assert(s@.subrange(a as int, b as int) =~= trim(t));
    (a, b)
}

/// `s` without its trailing white space.
pub fn trimmed_end(s: &str) -> (r: String)
    ensures
        r@ == trim_end(s@),
{
    let v = chars_of(s);
    let mut b = v.len();
    while b > 0 && is_whitespace(v[b - 1])
        invariant
            b <= v@.len(),
            v@ == s@,
            forall|j: int| b <= j < v@.len() ==> is_ws(#[trigger] v@[j]),
        decreases b,
    {
        b -= 1;
    }
    proof {
        lemma_trail_ws(v@, v@.len() - b);
    }
    string_of(v.as_slice(), 0, b)
}

/// `s` without white space at either end.
pub fn trimmed(s: &str) -> (r: String)
    ensures
        r@ == trim(s@),
{
    let v = chars_of(s);
    let (a, b) = trim_span(v.as_slice(), 0, v.len());
    assert(v@.subrange(0, v@.len() as int) =~= v@);
    string_of(v.as_slice(), a, b)
}

/// The index of the first line feed at or after `i`, or the length.
pub open spec fn next_newline(s: Seq<char>, i: int) -> int
    decreases s.len() - i,
{
    if i >= s.len() { s.len() as int } else if s[i] == '\n' { i } else { next_newline(s, i + 1) }
}

/// A line without the carriage return that ended it.
pub open spec fn strip_cr(line: Seq<char>) -> Seq<char> {
    if line.len() > 0 && line.last() == '\r' { line.drop_last() } else { line }
}

/// The lines of `s[i..]`, as `str::lines` gives them: split at each line
/// feed, a carriage return before it dropped, and no empty line after a
/// final line feed.
pub open spec fn lines_from(s: Seq<char>, i: int) -> Seq<Seq<char>>
    decreases s.len() - i,
{
    if i < 0 || i >= s.len() {
        Seq::empty()
    } else {
        let k = next_newline(s, i);
        proof {
            lemma_next_newline_bounds(s, i);
        }
        if k < s.len() {
            seq![strip_cr(s.subrange(i, k))] + lines_from(s, k + 1)
        } else {
            seq![s.subrange(i, s.len() as int)]
        }
    }
}

/// The lines of `s`, as `str::lines` gives them.
pub open spec fn lines(s: Seq<char>) -> Seq<Seq<char>> {
    lines_from(s, 0)
}

proof fn lemma_next_newline(s: Seq<char>, i: int, j: int)
    requires
        0 <= i <= j <= s.len(),
        forall|k: int| i <= k < j ==> s[k] != '\n',
    ensures
        next_newline(s, i) == next_newline(s, j),
    decreases j - i,
{
    if i < j {
        lemma_next_newline(s, i + 1, j);
    }
}

pub proof fn lemma_next_newline_bounds(s: Seq<char>, i: int)
    requires
        0 <= i <= s.len(),
    ensures
        i <= next_newline(s, i) <= s.len(),
        next_newline(s, i) < s.len() ==> s[next_newline(s, i)] == '\n',
    decreases s.len() - i,
{
    if i < s.len() && s[i] != '\n' {
        lemma_next_newline_bounds(s, i + 1);
    }
}

/// Where the lines of `s` lie: each span is a line's bounds, before the
/// carriage return is dropped.
/// Whether span `i` of `r` bounds line `i` of `s`, before the carriage
/// return is dropped.
pub open spec fn span_is_line(s: Seq<char>, r: Seq<(usize, usize)>, i: int) -> bool {
    &&& r[i].0 <= r[i].1 <= s.len()
    &&& lines(s)[i] == (if r[i].1 < s.len() {
        strip_cr(s.subrange(r[i].0 as int, r[i].1 as int))
    } else {
        s.subrange(r[i].0 as int, r[i].1 as int)
    })
}

/// Where the lines of `s` lie: each span is a line's bounds, before the
/// carriage return is dropped.
pub fn line_spans(s: &[char]) -> (r: Vec<(usize, usize)>)
    ensures
        r@.len() == lines(s@).len(),
        forall|i: int| 0 <= i < r@.len() ==> #[trigger] span_is_line(s@, r@, i),
{
    let mut r: Vec<(usize, usize)> = Vec::new();
    let mut start: usize = 0;
    let mut j: usize = 0;
    let n = s.len();
    while j < n
        invariant
            n == s@.len(),
            start <= j <= n,
            forall|k: int| start <= k < j ==> s@[k] != '\n',
            r@.len() + lines_from(s@, start as int).len() == lines(s@).len(),
            forall|i: int| 0 <= i < r@.len() ==> #[trigger] span_is_line(s@, r@, i),
            forall|i: int| 0 <= i < r@.len() ==> r@[i].1 < s@.len(),
            forall|i: int| 0 <= i < lines_from(s@, start as int).len() ==>
                lines(s@)[r@.len() + i] == #[trigger] lines_from(s@, start as int)[i],
        decreases n - j,
    {
        if s[j] == '\n' {
            proof {
                lemma_next_newline(s@, start as int, j as int);
                let rest = lines_from(s@, (j + 1) as int);
                assert(lines_from(s@, start as int) =~= seq![strip_cr(s@.subrange(start as int, j as int))] + rest);
                assert(lines_from(s@, start as int)[0] == strip_cr(s@.subrange(start as int, j as int)));
                assert(lines(s@)[r@.len() + 0int] == lines_from(s@, start as int)[0]);
                assert forall|i: int| 0 <= i < rest.len() implies
                    lines(s@)[r@.len() + 1 + i] == #[trigger] rest[i] by {
                    assert(lines_from(s@, start as int)[1 + i] == rest[i]);
                }
            }
            let ghost before = r@;
            r.push((start, j));
            proof {
                assert forall|i: int| 0 <= i < r@.len() implies #[trigger] span_is_line(s@, r@, i) by {
                    if i < before.len() {
                        assert(r@[i] == before[i]);
                        assert(span_is_line(s@, before, i));
                    }
                }
            }
            start = j + 1;
        }
        j += 1;
    }
    if start < n {
        proof {
            lemma_next_newline(s@, start as int, n as int);
            assert(lines_from(s@, start as int) =~= seq![s@.subrange(start as int, n as int)]);
            assert(lines_from(s@, start as int)[0] == s@.subrange(start as int, n as int));
            assert(lines(s@)[r@.len() + 0int] == lines_from(s@, start as int)[0]);
        }
        let ghost before = r@;
        r.push((start, n));
        proof {
            assert forall|i: int| 0 <= i < r@.len() implies #[trigger] span_is_line(s@, r@, i) by {
                if i < before.len() {
                    assert(r@[i] == before[i]);
                    assert(span_is_line(s@, before, i));
                }
            }
        }
    }
    r
}

/// The lower-case ASCII letter for `c`, any other character as it is.
pub open spec fn ascii_lower(c: char) -> char {
    if 'A' <= c && c <= 'Z' { ((c as u32) + 32) as char } else { c }
}

/// `c` with an ASCII capital made small.
pub fn to_ascii_lower(c: char) -> (r: char)
    ensures
        r == ascii_lower(c),
{
    if 'A' <= c && c <= 'Z' {
        ((c as u8) + 32) as char
    } else {
        c
    }
}

/// Whether two texts are equal once ASCII letters are made small.
pub open spec fn eq_ascii_ci(a: Seq<char>, b: Seq<char>) -> bool {
    a.len() == b.len() && forall|i: int| 0 <= i < a.len() ==> ascii_lower(#[trigger] a[i]) == ascii_lower(b[i])
}

/// Whether `s[from..to]` equals `t`, ASCII letters compared without case.
pub fn span_eq_ascii_ci(s: &[char], from: usize, to: usize, t: &[char]) -> (b: bool)
    requires
        from <= to <= s@.len(),
    ensures
        b == eq_ascii_ci(s@.subrange(from as int, to as int), t@),
{
    if to - from != t.len() {
        return false;
    }
    let mut i: usize = 0;
    while i < t.len()
        invariant
            to - from == t@.len(),
            from <= to <= s@.len(),
            i <= t@.len(),
            forall|k: int| 0 <= k < i ==> ascii_lower(#[trigger] s@[from + k]) == ascii_lower(t@[k]),
        decreases t@.len() - i,
    {
        if to_ascii_lower(s[from + i]) != to_ascii_lower(t[i]) {
            assert(s@.subrange(from as int, to as int)[i as int] == s@[from + i]);
            return false;
        }
        i += 1;
    }
    assert forall|k: int| 0 <= k < t@.len() implies
        ascii_lower(#[trigger] s@.subrange(from as int, to as int)[k]) == ascii_lower(t@[k]) by {
        assert(s@.subrange(from as int, to as int)[k] == s@[from + k]);
    }
    true
}

/// `parts` joined by `sep`.
pub open spec fn join(parts: Seq<Seq<char>>, sep: Seq<char>) -> Seq<char>
    decreases parts.len(),
{
    if parts.len() == 0 {
        Seq::empty()
    } else if parts.len() == 1 {
        parts[0]
    } else {
        join(parts.drop_last(), sep) + sep + parts.last()
    }
}

/// `parts` joined by `sep`.
pub fn join_strings(parts: &[String], sep: &str) -> (r: String)
    ensures
        r@ == join(views(parts@), sep@),
{
    let mut r = String::new();
    let mut i: usize = 0;
    while i < parts.len()
        invariant
            i <= parts@.len(),
            r@ == join(views(parts@.subrange(0, i as int)), sep@),
        decreases parts@.len() - i,
    {
        proof {
            assert(views(parts@.subrange(0, i + 1)).drop_last() =~= views(parts@.subrange(0, i as int)));
        }
        if i > 0 {
            push_str(&mut r, sep);
        }
        push_str(&mut r, parts[i].as_str());
        i += 1;
        assert(i == 1 ==> r@ =~= views(parts@.subrange(0, i as int))[0]);
    }
    assert(parts@.subrange(0, i as int) =~= parts@);
    r
}

/// The text of line `i` of `s`, given where it lies.
fn line_text(s: &[char], span: (usize, usize)) -> (r: String)
    requires
        span.0 <= span.1 <= s@.len(),
    ensures
        r@ == (if span.1 < s@.len() {
            strip_cr(s@.subrange(span.0 as int, span.1 as int))
        } else {
            s@.subrange(span.0 as int, span.1 as int)
        }),
{
    let mut end = span.1;
    if span.1 < s.len() && span.1 > span.0 && s[span.1 - 1] == '\r' {
        end = span.1 - 1;
        assert(s@.subrange(span.0 as int, span.1 as int).drop_last() =~= s@.subrange(span.0 as int, end as int));
    }
    string_of(s, span.0, end)
}

/// The lines of `s`, as `str::lines` gives them.
pub fn text_lines(s: &str) -> (r: Vec<String>)
    ensures
        views(r@) == lines(s@),
{
    let v = chars_of(s);
    let spans = line_spans(v.as_slice());
    let mut r: Vec<String> = Vec::new();
    let mut i: usize = 0;
    while i < spans.len()
        invariant
            v@ == s@,
            spans@.len() == lines(s@).len(),
            forall|k: int| 0 <= k < spans@.len() ==> #[trigger] span_is_line(v@, spans@, k),
            i <= spans@.len(),
            views(r@) == lines(s@).subrange(0, i as int),
        decreases spans@.len() - i,
    {
        assert(span_is_line(v@, spans@, i as int));
        let ghost before = r@;
        let line = line_text(v.as_slice(), spans[i]);
        assert(line@ == lines(s@)[i as int]);
        r.push(line);
        assert(views(r@) =~= views(before).push(line@));
        i += 1;
        assert(views(r@) =~= lines(s@).subrange(0, i as int));
    }
    assert(lines(s@).subrange(0, i as int) =~= lines(s@));
    r
}

/// What `str::to_lowercase` makes of a text: Unicode's lower-case mapping,
/// character by character, some characters becoming several.
pub uninterp spec fn lowercase(s: Seq<char>) -> Seq<char>;

/// `s` in lower case, as `str::to_lowercase` gives it.
#[verifier::external_body]
pub(crate) fn to_lowercase(s: &str) -> (r: String)
    ensures
        r@ == lowercase(s@),
{
    s.to_lowercase()
}

/// Whether `s` begins with `p`.
pub open spec fn has_prefix(s: Seq<char>, p: Seq<char>) -> bool {
    p.len() <= s.len() && s.subrange(0, p.len() as int) == p
}

/// Whether `s` ends with `p`.
pub open spec fn has_suffix(s: Seq<char>, p: Seq<char>) -> bool {
    p.len() <= s.len() && s.subrange(s.len() - p.len(), s.len() as int) == p
}

/// Whether text `s` begins with `p`.
pub fn str_starts_with(s: &str, p: &str) -> (b: bool)
    ensures
        b == has_prefix(s@, p@),
{
    let v = chars_of(s);
    let w = chars_of(p);
    starts_with(v.as_slice(), w.as_slice())
}

/// Whether text `s` ends with `p`.
pub fn str_ends_with(s: &str, p: &str) -> (b: bool)
    ensures
        b == has_suffix(s@, p@),
{
    let v = chars_of(s);
    let w = chars_of(p);
    if w.len() > v.len() {
        return false;
    }
    let n = v.len();
    let off = n - w.len();
    let mut i: usize = 0;
    while i < w.len()
        invariant
            v@ == s@,
            w@ == p@,
            n == v@.len(),
            w@.len() <= v@.len(),
            off == v@.len() - w@.len(),
            i <= w@.len(),
            forall|k: int| 0 <= k < i ==> v@[off + k] == w@[k],
        decreases w@.len() - i,
    {
        if v[off + i] != w[i] {
            assert(v@.subrange(off as int, v@.len() as int)[i as int] == v@[off + i]);
            return false;
        }
        i += 1;
    }
    assert(v@.subrange(off as int, v@.len() as int) =~= w@);
    true
}

/// Whether two texts are the same.
pub fn str_eq(a: &str, b: &str) -> (r: bool)
    ensures
        r == (a@ == b@),
{
    let v = chars_of(a);
    let w = chars_of(b);
    if v.len() != w.len() {
        return false;
    }
    let mut i: usize = 0;
    while i < v.len()
        invariant
            v@ == a@,
            w@ == b@,
            v@.len() == w@.len(),
            i <= v@.len(),
            forall|k: int| 0 <= k < i ==> v@[k] == w@[k],
        decreases v@.len() - i,
    {
        if v[i] != w[i] {
            assert(v@[i as int] != w@[i as int]);
            return false;
        }
        i += 1;
    }
    assert(v@ =~= w@);
    true
}

/// The first `k` in `lo..hi` that `p` holds of, or `hi`.
pub open spec fn first_from(lo: int, hi: int, p: spec_fn(int) -> bool) -> int
    decreases hi - lo,
{
    if lo >= hi { hi } else if p(lo) { lo } else { first_from(lo + 1, hi, p) }
}

/// Skipping indices `p` does not hold of leaves the first one where it is.
pub proof fn lemma_first_from_skip(lo: int, mid: int, hi: int, p: spec_fn(int) -> bool)
    requires
        lo <= mid <= hi,
        forall|j: int| lo <= j < mid ==> !#[trigger] p(j),
    ensures
        first_from(lo, hi, p) == first_from(mid, hi, p),
    decreases mid - lo,
{
    if lo < mid {
        lemma_first_from_skip(lo + 1, mid, hi, p);
    }
}

/// `first_from` finds an index `p` holds of, or runs to the end.
pub proof fn lemma_first_from_bounds(lo: int, hi: int, p: spec_fn(int) -> bool)
    requires
        lo <= hi,
    ensures
        lo <= first_from(lo, hi, p) <= hi,
        first_from(lo, hi, p) < hi ==> p(first_from(lo, hi, p)),
        forall|j: int| lo <= j < first_from(lo, hi, p) ==> !#[trigger] p(j),
    decreases hi - lo,
{
    if lo < hi && !p(lo) {
        lemma_first_from_bounds(lo + 1, hi, p);
    }
}

/// Where the pieces of `s[i..]` lie when it is split after each line feed,
/// the line feed kept, as `str::split_inclusive('\n')` does.
pub open spec fn pieces_from(s: Seq<char>, i: int) -> Seq<(int, int)>
    decreases s.len() - i,
{
    if i < 0 || i >= s.len() {
        Seq::empty()
    } else {
        let k = next_newline(s, i);
        proof {
            lemma_next_newline_bounds(s, i);
        }
        if k < s.len() {
            seq![(i, k + 1)] + pieces_from(s, k + 1)
        } else {
            seq![(i, s.len() as int)]
        }
    }
}

/// Where the pieces of `s` lie, each line with its line feed.
pub open spec fn pieces(s: Seq<char>) -> Seq<(int, int)> {
    pieces_from(s, 0)
}

/// Where the pieces of `s` lie, each line with its line feed.
pub fn piece_spans(s: &[char]) -> (r: Vec<(usize, usize)>)
    ensures
        r@.len() == pieces(s@).len(),
        forall|i: int| 0 <= i < r@.len() ==> (#[trigger] r@[i]).0 as int == pieces(s@)[i].0
            && r@[i].1 as int == pieces(s@)[i].1 && r@[i].0 < r@[i].1 <= s@.len(),
        forall|i: int| 0 < i < r@.len() ==> (#[trigger] r@[i]).0 == r@[i - 1].1,
        forall|i: int, j: int| 0 <= i < j < r@.len() ==> (#[trigger] r@[i]).1 <= (#[trigger] r@[j]).0,
        r@.len() > 0 ==> r@[0].0 == 0,
{
    let mut r: Vec<(usize, usize)> = Vec::new();
    let mut start: usize = 0;
    let mut j: usize = 0;
    let n = s.len();
    while j < n
        invariant
            n == s@.len(),
            start <= j <= n,
            forall|k: int| start <= k < j ==> s@[k] != '\n',
            r@.len() + pieces_from(s@, start as int).len() == pieces(s@).len(),
            forall|i: int| 0 <= i < r@.len() ==> (#[trigger] r@[i]).0 as int == pieces(s@)[i].0
                && r@[i].1 as int == pieces(s@)[i].1 && r@[i].0 < r@[i].1 <= start,
            forall|i: int| 0 < i < r@.len() ==> (#[trigger] r@[i]).0 == r@[i - 1].1,
            forall|i: int, j: int| 0 <= i < j < r@.len() ==> (#[trigger] r@[i]).1 <= (#[trigger] r@[j]).0,
            r@.len() > 0 ==> r@[0].0 == 0 && r@[r@.len() - 1].1 == start,
            r@.len() == 0 ==> start == 0,
            forall|i: int| 0 <= i < pieces_from(s@, start as int).len() ==>
                pieces(s@)[r@.len() + i] == #[trigger] pieces_from(s@, start as int)[i],
        decreases n - j,
    {
        if s[j] == '\n' {
            proof {
                lemma_next_newline(s@, start as int, j as int);
                let rest = pieces_from(s@, (j + 1) as int);
                assert(pieces_from(s@, start as int) =~= seq![(start as int, j + 1)] + rest);
                assert(pieces_from(s@, start as int)[0] == (start as int, j + 1));
                assert(pieces(s@)[r@.len() + 0int] == pieces_from(s@, start as int)[0]);
                assert forall|i: int| 0 <= i < rest.len() implies
                    pieces(s@)[r@.len() + 1 + i] == #[trigger] rest[i] by {
                    assert(pieces_from(s@, start as int)[1 + i] == rest[i]);
                }
            }
            r.push((start, j + 1));
            start = j + 1;
        }
        j += 1;
    }
    if start < n {
        proof {
            lemma_next_newline(s@, start as int, n as int);
            assert(pieces_from(s@, start as int) =~= seq![(start as int, n as int)]);
            assert(pieces_from(s@, start as int)[0] == (start as int, n as int));
            assert(pieces(s@)[r@.len() + 0int] == pieces_from(s@, start as int)[0]);
        }
        r.push((start, n));
    }
    r
}

/// How many times `c` stands at the start of `s`.
pub open spec fn lead_count(s: Seq<char>, c: char) -> nat
    decreases s.len(),
{
    if s.len() > 0 && s[0] == c { 1 + lead_count(s.drop_first(), c) } else { 0 }
}

proof fn lemma_lead_count(s: Seq<char>, c: char, i: int)
    requires
        0 <= i <= s.len(),
        forall|j: int| 0 <= j < i ==> #[trigger] s[j] == c,
        i == s.len() || s[i] != c,
    ensures
        lead_count(s, c) == i,
    decreases i,
{
    if i > 0 {
        lemma_lead_count(s.drop_first(), c, i - 1);
    }
}

/// How many times `c` stands at the start of `s[from..to]`.
pub fn count_lead(s: &[char], from: usize, to: usize, c: char) -> (n: usize)
    requires
        from <= to <= s@.len(),
    ensures
        n == lead_count(s@.subrange(from as int, to as int), c),
        from + n <= to,
{
    let mut i = from;
    while i < to && s[i] == c
        invariant
            from <= i <= to <= s@.len(),
            forall|j: int| from <= j < i ==> s@[j] == c,
        decreases to - i,
    {
        i += 1;
    }
    proof {
        let t = s@.subrange(from as int, to as int);
        assert forall|j: int| 0 <= j < i - from implies #[trigger] t[j] == c by {
            assert(t[j] == s@[from + j]);
        }
        lemma_lead_count(t, c, i - from);
    }
    i - from
}

/// Whether `c` is an ASCII hexadecimal digit.
pub open spec fn is_hex(c: char) -> bool {
    ('0' <= c && c <= '9') || ('a' <= c && c <= 'f') || ('A' <= c && c <= 'F')
}

/// Whether every character of `s` is ASCII.
pub open spec fn is_ascii_text(s: Seq<char>) -> bool {
    forall|i: int| 0 <= i < s.len() ==> (#[trigger] s[i] as u32) < 128
}

/// `s` in `{:?}` form: quoted, with what needs escaping escaped.
pub uninterp spec fn debug_quoted(s: Seq<char>) -> Seq<char>;

/// `s` in `{:?}` form, as `format!("{s:?}")` writes it.
#[verifier::external_body]
pub(crate) fn quoted(s: &str) -> (r: String)
    ensures
        r@ == debug_quoted(s@),
{
    format!("{s:?}")
}

/// Whether `a` comes before `b` in code-point order, character by
/// character, a prefix first: the order of `str` and `String`, whose bytes
/// are UTF-8, which keeps code-point order.
pub open spec fn lex_lt(a: Seq<char>, b: Seq<char>) -> bool
    decreases a.len(),
{
    if a.len() == 0 {
        b.len() > 0
    } else if b.len() == 0 {
        false
    } else if a[0] != b[0] {
        a[0] < b[0]
    } else {
        lex_lt(a.drop_first(), b.drop_first())
    }
}

/// Two different texts are ordered one way or the other.
pub proof fn lemma_lex_total(a: Seq<char>, b: Seq<char>)
    requires
        a != b,
    ensures
        lex_lt(a, b) || lex_lt(b, a),
    decreases a.len(),
{
    if a.len() == 0 && b.len() == 0 {
        assert(a =~= b);
    }
    if a.len() > 0 && b.len() > 0 && a[0] == b[0] {
        if a.drop_first() == b.drop_first() {
            assert(a =~= seq![a[0]] + a.drop_first());
            assert(b =~= seq![b[0]] + b.drop_first());
        }
        lemma_lex_total(a.drop_first(), b.drop_first());
    }
}

/// Coming before is transitive.
pub proof fn lemma_lex_trans(a: Seq<char>, b: Seq<char>, c: Seq<char>)
    requires
        lex_lt(a, b),
        lex_lt(b, c),
    ensures
        lex_lt(a, c),
    decreases a.len(),
{
    if a.len() > 0 && a[0] == b[0] && b[0] == c[0] {
        lemma_lex_trans(a.drop_first(), b.drop_first(), c.drop_first());
    }
}

/// No text comes before itself.
pub proof fn lemma_lex_irreflexive(a: Seq<char>)
    ensures
        !lex_lt(a, a),
    decreases a.len(),
{
    if a.len() > 0 {
        lemma_lex_irreflexive(a.drop_first());
    }
}

/// Whether `a` comes before `b`.
pub fn text_less(a: &[char], b: &[char]) -> (r: bool)
    ensures
        r == lex_lt(a@, b@),
{
    let mut i: usize = 0;
    assert(a@.subrange(0, a@.len() as int) =~= a@);
    assert(b@.subrange(0, b@.len() as int) =~= b@);
    while i < a.len() && i < b.len() && a[i] == b[i]
        invariant
            i <= a@.len(),
            i <= b@.len(),
            lex_lt(a@, b@) == lex_lt(a@.subrange(i as int, a@.len() as int), b@.subrange(i as int, b@.len() as int)),
        decreases a@.len() - i,
    {
        proof {
            let x = a@.subrange(i as int, a@.len() as int);
            let y = b@.subrange(i as int, b@.len() as int);
            assert(x.drop_first() =~= a@.subrange(i + 1, a@.len() as int));
            assert(y.drop_first() =~= b@.subrange(i + 1, b@.len() as int));
        }
        i += 1;
    }
    let ghost x = a@.subrange(i as int, a@.len() as int);
    let ghost y = b@.subrange(i as int, b@.len() as int);
    if i == a.len() {
        assert(x.len() == 0);
        i < b.len()
    } else if i == b.len() {
        false
    } else {
        assert(x[0] == a@[i as int] && y[0] == b@[i as int]);
        a[i] < b[i]
    }
}

/// Whether no text comes after one that follows it.
pub open spec fn sorted_le(s: Seq<Seq<char>>) -> bool {
    forall|i: int, j: int| 0 <= i < j < s.len() ==> !lex_lt(#[trigger] s[j], #[trigger] s[i])
}

/// `items` in order, duplicates kept: the order of `slice::sort` on
/// strings.
pub fn sort_texts(items: &[String]) -> (r: Vec<String>)
    ensures
        sorted_le(views(r@)),
        views(r@).to_multiset() == views(items@).to_multiset(),
{
    let mut r: Vec<String> = Vec::new();
    let mut i: usize = 0;
    assert(views(r@) =~= views(items@).subrange(0, 0));
    while i < items.len()
        invariant
            i <= items@.len(),
            sorted_le(views(r@)),
            views(r@).to_multiset() == views(items@).subrange(0, i as int).to_multiset(),
        decreases items@.len() - i,
    {
        let x = chars_of(items[i].as_str());
        let mut p: usize = 0;
        while p < r.len() && !text_less(x.as_slice(), chars_of(r[p].as_str()).as_slice())
            invariant
                p <= r@.len(),
                i < items@.len(),
                x@ == items@[i as int]@,
                forall|k: int| 0 <= k < p ==> !lex_lt(x@, #[trigger] r@[k]@),
            decreases r@.len() - p,
        {
            p += 1;
        }
        let ghost before = views(r@);
        r.insert(p, items[i].clone());
        proof {
            let xv = items@[i as int]@;
            assert(views(r@) =~= before.insert(p as int, xv));
            vstd::seq_lib::to_multiset_insert(before, p as int, xv);
            assert(views(items@).subrange(0, i + 1) =~= views(items@).subrange(0, i as int).push(xv));
            vstd::seq_lib::to_multiset_build(views(items@).subrange(0, i as int), xv);
            let after = views(r@);
            assert forall|a: int, b: int| 0 <= a < b < after.len() implies !lex_lt(#[trigger] after[b], #[trigger] after[a]) by {
                if a < p && b == p {
                    assert(after[a] == before[a]);
                } else if a == p {
                    assert(after[b] == before[b - 1]);
                    if p < before.len() {
                        if b - 1 > p {
                            assert(!lex_lt(before[b - 1], before[p as int]));
                        }
                        assert(lex_lt(xv, before[p as int]));
                        if lex_lt(before[b - 1], xv) {
                            lemma_lex_trans(before[b - 1], xv, before[p as int]);
                            if b - 1 == p {
                                lemma_lex_irreflexive(before[p as int]);
                            }
                        }
                    }
                } else if a < p && b > p {
                    assert(after[a] == before[a]);
                    assert(after[b] == before[b - 1]);
                } else if a > p {
                    assert(after[a] == before[a - 1]);
                    assert(after[b] == before[b - 1]);
                } else {
                    assert(after[a] == before[a]);
                    assert(after[b] == before[b]);
                }
            }
        }
        i += 1;
    }
    assert(views(items@).subrange(0, items@.len() as int) =~= views(items@));
    r
}

/// Whether text `i` comes strictly before text `i + 1`.
pub open spec fn in_order(s: Seq<Seq<char>>, i: int) -> bool {
    lex_lt(s[i], s[i + 1])
}

/// Whether each text comes strictly before the next.
pub open spec fn strictly_sorted(s: Seq<Seq<char>>) -> bool {
    forall|i: int| 0 <= i < s.len() - 1 ==> #[trigger] in_order(s, i)
}

/// `items` once each, in order: each strictly before the next, and nothing
/// that was not there.
pub fn sorted_unique(items: &[String]) -> (r: Vec<String>)
    ensures
        strictly_sorted(views(r@)),
        views(r@).to_set() == views(items@).to_set(),
{
    let mut r: Vec<String> = Vec::new();
    let mut keys: Vec<Vec<char>> = Vec::new();
    let mut i: usize = 0;
    while i < items.len()
        invariant
            i <= items@.len(),
            keys@.len() == r@.len(),
            forall|k: int| 0 <= k < r@.len() ==> (#[trigger] keys@[k])@ == r@[k]@,
            strictly_sorted(views(r@)),
            views(r@).to_set() == views(items@.subrange(0, i as int)).to_set(),
        decreases items@.len() - i,
    {
        let x = chars_of(items[i].as_str());
        let mut k: usize = 0;
        while k < keys.len() && text_less(keys[k].as_slice(), x.as_slice())
            invariant
                keys@.len() == r@.len(),
                k <= keys@.len(),
                forall|m: int| 0 <= m < k ==> lex_lt(#[trigger] keys@[m]@, x@),
            decreases keys@.len() - k,
        {
            k += 1;
        }
        let ghost before = views(r@);
        let ghost old_keys = keys@;
        proof {
            assert(views(items@.subrange(0, i + 1)) =~= views(items@.subrange(0, i as int)).push(x@));
            views(items@.subrange(0, i as int)).lemma_push_to_set_commute(x@);
        }
        let same = k < keys.len() && crate::text::str_eq(r[k].as_str(), items[i].as_str());
        if !same {
            proof {
                if k < keys@.len() {
                    lemma_lex_total(keys@[k as int]@, x@);
                    assert(lex_lt(x@, before[k as int]));
                }
            }
            r.insert(k, items[i].clone());
            keys.insert(k, x);
            proof {
                assert(views(r@) =~= before.insert(k as int, x@));
                assert forall|m: int| 0 <= m < views(r@).len() - 1 implies #[trigger] in_order(views(r@), m) by {
                    if m + 1 < k {
                        assert(in_order(before, m));
                    } else if m + 1 == k {
                        assert(views(r@)[m] == old_keys[m]@);
                        assert(lex_lt(old_keys[m]@, x@));
                    } else if m == k {
                        assert(views(r@)[m + 1] == before[k as int]);
                    } else {
                        assert(in_order(before, m - 1));
                    }
                }
                assert forall|m: int| 0 <= m < r@.len() implies (#[trigger] keys@[m])@ == r@[m]@ by {}
                assert(views(r@).to_set() =~= before.to_set().insert(x@)) by {
                    assert forall|t: Seq<char>| views(r@).to_set().contains(t) == before.to_set().insert(x@).contains(t) by {
                        if views(r@).to_set().contains(t) {
                            let j = choose|j: int| 0 <= j < views(r@).len() && views(r@)[j] == t;
                            if j < k { assert(before[j] == t); } else if j > k { assert(before[j - 1] == t); }
                        }
                        if before.to_set().contains(t) {
                            let j = choose|j: int| 0 <= j < before.len() && before[j] == t;
                            if j < k { assert(views(r@)[j] == t); } else { assert(views(r@)[j + 1] == t); }
                        }
                        if t == x@ { assert(views(r@)[k as int] == t); }
                    }
                }
            }
        } else {
            proof {
                assert(before[k as int] == x@);
                assert(before.to_set() =~= before.to_set().insert(x@));
            }
        }
        i += 1;
    }
    assert(items@.subrange(0, i as int) =~= items@);
    r
}

/// `b` appended to path `a`, as `Path::join` does on Unix: an absolute `b`
/// replaces `a`, and a separator is put between them when `a` does not end
/// with one.
pub open spec fn path_join(a: Seq<char>, b: Seq<char>) -> Seq<char> {
    if b.len() > 0 && b[0] == '/' {
        b
    } else if a.len() == 0 {
        b
    } else if a.last() == '/' {
        a + b
    } else {
        a + seq!['/'] + b
    }
}

/// `b` appended to path `a`, as `Path::join` does on Unix.
pub fn join_path(a: &str, b: &str) -> (r: String)
    ensures
        r@ == path_join(a@, b@),
{
    let bv = chars_of(b);
    if bv.len() > 0 && bv[0] == '/' {
        return owned(b);
    }
    let av = chars_of(a);
    if av.len() == 0 {
        return owned(b);
    }
    let mut r = owned(a);
    if av[av.len() - 1] != '/' {
        push_char(&mut r, '/');
    }
    push_str(&mut r, b);
    r
}

/// The first index at or after `i` whose character `p` holds of, or the
/// length.
pub open spec fn next_where(s: Seq<char>, i: int, p: spec_fn(char) -> bool) -> int
    decreases s.len() - i,
{
    if i >= s.len() { s.len() as int } else if p(s[i]) { i } else { next_where(s, i + 1, p) }
}

pub proof fn lemma_next_where(s: Seq<char>, i: int, p: spec_fn(char) -> bool)
    requires
        0 <= i <= s.len(),
    ensures
        i <= next_where(s, i, p) <= s.len(),
        next_where(s, i, p) < s.len() ==> p(s[next_where(s, i, p)]),
        forall|k: int| i <= k < next_where(s, i, p) ==> !p(#[trigger] s[k]),
    decreases s.len() - i,
{
    if i < s.len() && !p(s[i]) {
        lemma_next_where(s, i + 1, p);
    }
}

/// The words of `s[i..]`: its runs of characters that are not white space.
pub open spec fn words_from(s: Seq<char>, i: int) -> Seq<Seq<char>>
    decreases s.len() - i,
{
    if i < 0 || i >= s.len() {
        Seq::empty()
    } else {
        let a = next_where(s, i, |c: char| !is_ws(c));
        proof {
            lemma_next_where(s, i, |c: char| !is_ws(c));
        }
        if a >= s.len() {
            Seq::empty()
        } else {
            let b = next_where(s, a, |c: char| is_ws(c));
            proof {
                lemma_next_where(s, a, |c: char| is_ws(c));
            }
            seq![s.subrange(a, b)] + words_from(s, b)
        }
    }
}

/// The words of `s`, as `str::split_whitespace` gives them.
pub open spec fn words(s: Seq<char>) -> Seq<Seq<char>> {
    words_from(s, 0)
}

/// The words of `s`, as `str::split_whitespace` gives them.
pub fn split_words(s: &str) -> (r: Vec<String>)
    ensures
        views(r@) == words(s@),
{
    let v = chars_of(s);
    let n = v.len();
    let mut r: Vec<String> = Vec::new();
    let mut i: usize = 0;
    while i < n
        invariant
            v@ == s@,
            n == v@.len(),
            i <= n,
            views(r@) + words_from(v@, i as int) == words(v@),
        decreases n - i,
    {
        let ghost at = i;
        let mut a = i;
        while a < n && is_whitespace(v[a])
            invariant
                at <= a <= n,
                n == v@.len(),
                forall|k: int| at <= k < a ==> is_ws(#[trigger] v@[k]),
            decreases n - a,
        {
            a += 1;
        }
        proof {
            lemma_next_where(v@, at as int, |c: char| !is_ws(c));
            let na = next_where(v@, at as int, |c: char| !is_ws(c));
            if na < a {
                assert(is_ws(v@[na]));
            }
            if a < na {
                assert(!is_ws(v@[a as int]));
            }
        }
        if a == n {
            assert(words_from(v@, at as int) =~= Seq::<Seq<char>>::empty());
            assert(words_from(v@, n as int) =~= Seq::<Seq<char>>::empty());
            i = n;
        } else {
            let mut b = a;
            while b < n && !is_whitespace(v[b])
                invariant
                    a <= b <= n,
                    n == v@.len(),
                    forall|k: int| a <= k < b ==> !is_ws(#[trigger] v@[k]),
                decreases n - b,
            {
                b += 1;
            }
            proof {
                lemma_next_where(v@, a as int, |c: char| is_ws(c));
                let nb = next_where(v@, a as int, |c: char| is_ws(c));
                if nb < b {
                    assert(!is_ws(v@[nb]));
                }
                if b < nb {
                    assert(is_ws(v@[b as int]));
                }
                assert(words_from(v@, at as int) == seq![v@.subrange(a as int, b as int)] + words_from(v@, b as int));
            }
            let w = string_of(v.as_slice(), a, b);
            let ghost before = views(r@);
            r.push(w);
            assert(views(r@) =~= before.push(v@.subrange(a as int, b as int)));
            assert(views(r@) + words_from(v@, b as int) =~= before + words_from(v@, at as int));
            i = b;
        }
    }
    r
}

/// Whether `c` is an ASCII decimal digit.
pub open spec fn is_digit(c: char) -> bool {
    '0' <= c && c <= '9'
}

/// The value of a run of decimal digits.
pub open spec fn digits_value(s: Seq<char>) -> nat
    decreases s.len(),
{
    if s.len() == 0 {
        0
    } else {
        digits_value(s.drop_last()) * 10 + (s.last() as int - '0' as int) as nat
    }
}

/// Whether `s` is one or more decimal digits.
pub open spec fn all_digits(s: Seq<char>) -> bool {
    s.len() > 0 && forall|i: int| 0 <= i < s.len() ==> is_digit(#[trigger] s[i])
}

/// What `str::parse::<u32>` reads: an optional `+`, then decimal digits,
/// the value fitting in 32 bits.
pub open spec fn parse_u32(s: Seq<char>) -> Option<u32> {
    let body = if s.len() > 0 && s[0] == '+' { s.drop_first() } else { s };
    if all_digits(body) && digits_value(body) <= u32::MAX {
        Some(digits_value(body) as u32)
    } else {
        None
    }
}

/// What `str::parse::<i64>` reads: an optional sign, then decimal digits,
/// the value fitting in 64 signed bits.
pub open spec fn parse_i64(s: Seq<char>) -> Option<i64> {
    let negative = s.len() > 0 && s[0] == '-';
    let body = if s.len() > 0 && (s[0] == '+' || s[0] == '-') { s.drop_first() } else { s };
    if !all_digits(body) {
        None
    } else if negative {
        if digits_value(body) <= 0x8000_0000_0000_0000 { Some((-(digits_value(body) as int)) as i64) } else { None }
    } else {
        if digits_value(body) <= i64::MAX { Some(digits_value(body) as i64) } else { None }
    }
}

proof fn lemma_digits_grow(s: Seq<char>, k: int)
    requires
        0 <= k <= s.len(),
        forall|i: int| 0 <= i < s.len() ==> is_digit(#[trigger] s[i]),
    ensures
        digits_value(s.take(k)) <= digits_value(s),
    decreases s.len() - k,
{
    if k < s.len() {
        lemma_digits_grow(s, k + 1);
        assert(s.take(k + 1).drop_last() =~= s.take(k));
    } else {
        assert(s.take(k) =~= s);
    }
}

fn digit_of(c: char) -> (d: u64)
    requires
        is_digit(c),
    ensures
        d == c as int - '0' as int,
{
    if c == '0' { 0 }
    else if c == '1' { 1 }
    else if c == '2' { 2 }
    else if c == '3' { 3 }
    else if c == '4' { 4 }
    else if c == '5' { 5 }
    else if c == '6' { 6 }
    else if c == '7' { 7 }
    else if c == '8' { 8 }
    else { 9 }
}

/// The value of the decimal digits `s[from..to]`, when they are all digits,
/// there is at least one, and the value is at most `limit`.
pub fn digits_upto(s: &[char], from: usize, to: usize, limit: u64) -> (r: Option<u64>)
    requires
        from <= to <= s@.len(),
    ensures
        ({
            let t = s@.subrange(from as int, to as int);
            if all_digits(t) && digits_value(t) <= limit {
                r == Some(digits_value(t) as u64)
            } else {
                r is None
            }
        }),
{
    let ghost t = s@.subrange(from as int, to as int);
    if from == to {
        return None;
    }
    let mut k = from;
    while k < to
        invariant
            from <= k <= to <= s@.len(),
            t == s@.subrange(from as int, to as int),
            forall|i: int| from <= i < k ==> is_digit(#[trigger] s@[i]),
        decreases to - k,
    {
        if !('0' <= s[k] && s[k] <= '9') {
            assert(!is_digit(t[k - from]));
            return None;
        }
        k += 1;
    }
    assert forall|i: int| 0 <= i < t.len() implies is_digit(#[trigger] t[i]) by {
        assert(t[i] == s@[from + i]);
    }
    let mut acc: u64 = 0;
    let mut i = from;
    while i < to
        invariant
            from <= i <= to <= s@.len(),
            t == s@.subrange(from as int, to as int),
            forall|j: int| 0 <= j < t.len() ==> is_digit(#[trigger] t[j]),
            acc as nat == digits_value(t.take(i - from)),
            acc <= limit,
        decreases to - i,
    {
        assert(t[i - from] == s@[i as int]);
        let d: u64 = digit_of(s[i]);
        proof {
            assert(t.take(i - from + 1).drop_last() =~= t.take(i - from));
            assert(t[i - from] == s@[i as int]);
            assert(is_digit(t[i - from]));
        }
        if d > limit || acc > (limit - d) / 10 {
            proof {
                assert(digits_value(t.take(i - from + 1)) == acc * 10 + d);
                assert(acc * 10 + d > limit) by (nonlinear_arith)
                    requires d > limit || acc > (limit - d) / 10, d <= 9;
                lemma_digits_grow(t, i - from + 1);
            }
            return None;
        }
        assert(acc * 10 + d <= limit) by (nonlinear_arith)
            requires acc <= (limit - d) / 10, d <= limit;
        acc = acc * 10 + d;
        i += 1;
    }
    assert(t.take(t.len() as int) =~= t);
    Some(acc)
}

/// `s` read as `str::parse::<u32>` reads it.
pub fn parse_u32_text(s: &str) -> (r: Option<u32>)
    ensures
        r == parse_u32(s@),
{
    let v = chars_of(s);
    let from: usize = if v.len() > 0 && v[0] == '+' { 1 } else { 0 };
    let ghost body = if s@.len() > 0 && s@[0] == '+' { s@.drop_first() } else { s@ };
    assert(body =~= v@.subrange(from as int, v@.len() as int));
    match digits_upto(v.as_slice(), from, v.len(), 0xFFFF_FFFF) {
        Some(n) => Some(n as u32),
        None => None,
    }
}

/// `s` read as `str::parse::<i64>` reads it.
pub fn parse_i64_text(s: &str) -> (r: Option<i64>)
    ensures
        r == parse_i64(s@),
{
    let v = chars_of(s);
    let negative = v.len() > 0 && v[0] == '-';
    let from: usize = if v.len() > 0 && (v[0] == '+' || v[0] == '-') { 1 } else { 0 };
    let ghost body = if s@.len() > 0 && (s@[0] == '+' || s@[0] == '-') { s@.drop_first() } else { s@ };
    assert(body =~= v@.subrange(from as int, v@.len() as int));
    if negative {
        match digits_upto(v.as_slice(), from, v.len(), 0x8000_0000_0000_0000) {
            Some(n) => {
                if n == 0x8000_0000_0000_0000 {
                    Some(i64::MIN)
                } else {
                    Some(-(n as i64))
                }
            },
            None => None,
        }
    } else {
        match digits_upto(v.as_slice(), from, v.len(), 0x7FFF_FFFF_FFFF_FFFF) {
            Some(n) => Some(n as i64),
            None => None,
        }
    }
}

/// How many bytes UTF-8 takes for `c`.
pub open spec fn utf8_width(c: char) -> nat {
    if (c as int) < 0x80 { 1 } else if (c as int) < 0x800 { 2 } else if (c as int) < 0x10000 { 3 } else { 4 }
}

/// How many bytes UTF-8 takes for `s`.
pub open spec fn utf8_len(s: Seq<char>) -> nat
    decreases s.len(),
{
    if s.len() == 0 { 0 } else { utf8_len(s.drop_last()) + utf8_width(s.last()) }
}

/// Whether the first `n` bytes of `s` end on a character: `s` is no longer
/// than that, or some prefix of it takes exactly `n` bytes.
pub open spec fn bytes_end_on_char(s: Seq<char>, n: nat) -> bool {
    utf8_len(s) <= n || exists|k: int| 0 <= k <= s.len() && #[trigger] utf8_len(s.take(k)) == n
}

/// The characters of the first `n` bytes of `s`, or all of `s` when it is
/// shorter.
pub open spec fn take_bytes(s: Seq<char>, n: nat) -> Seq<char> {
    if utf8_len(s) <= n {
        s
    } else {
        s.take(choose|k: int| 0 <= k <= s.len() && #[trigger] utf8_len(s.take(k)) == n)
    }
}

fn width_of(c: char) -> (w: usize)
    ensures
        w == utf8_width(c),
{
    if '\u{80}' > c {
        1
    } else if '\u{800}' > c {
        2
    } else if '\u{10000}' > c {
        3
    } else {
        4
    }
}

proof fn lemma_utf8_len_grows(s: Seq<char>, j: int, k: int)
    requires
        0 <= j < k <= s.len(),
    ensures
        utf8_len(s.take(j)) < utf8_len(s.take(k)),
    decreases k - j,
{
    assert(s.take(k).drop_last() =~= s.take(k - 1));
    if j < k - 1 {
        lemma_utf8_len_grows(s, j, k - 1);
    }
}

/// The first `n` bytes of `s`, which must end on a character — the text a
/// byte slice `&s[..n]` gives, or all of `s` when it is shorter.
pub fn prefix_bytes(s: &str, n: usize) -> (r: &str)
    requires
        bytes_end_on_char(s@, n as nat),
    ensures
        r@ == take_bytes(s@, n as nat),
{
    let v = chars_of(s);
    let mut k: usize = 0;
    let mut used: usize = 0;
    while k < v.len() && width_of(v[k]) <= n - used
        invariant
            v@ == s@,
            k <= v@.len(),
            used as nat == utf8_len(s@.take(k as int)),
            used <= n,
        decreases v@.len() - k,
    {
        let w = width_of(v[k]);
        proof {
            assert(s@.take(k + 1).drop_last() =~= s@.take(k as int));
        }
        used = used + w;
        k += 1;
    }
    proof {
        if k == v@.len() {
            assert(s@.take(k as int) =~= s@);
        } else {
            assert(s@.take(k + 1).drop_last() =~= s@.take(k as int));
            assert(utf8_len(s@.take(k + 1)) > n);
            assert(utf8_len(s@) > n) by {
                if k + 1 < s@.len() {
                    lemma_utf8_len_grows(s@, k + 1, s@.len() as int);
                }
                assert(s@.take(s@.len() as int) =~= s@);
            }
            let m = choose|m: int| 0 <= m <= s@.len() && #[trigger] utf8_len(s@.take(m)) == n;
            if m < k {
                lemma_utf8_len_grows(s@, m, k as int);
            }
            if m > k + 1 {
                lemma_utf8_len_grows(s@, k + 1, m);
            }
            assert(m == k);
        }
    }
    s.substring_char(0, k)
}

/// What `Path::parent` gives for a path: the path without its last
/// component, or nothing for a root or an empty path.
pub uninterp spec fn path_parent(p: Seq<char>) -> Option<Seq<char>>;

/// The directory a path is in, as `Path::parent` gives it.
#[verifier::external_body]
pub(crate) fn parent_of(p: &str) -> (r: Option<String>)
    ensures
        match r {
            Some(d) => path_parent(p@) == Some(d@),
            None => path_parent(p@) is None,
        },
{
    std::path::Path::new(p).parent().map(|d| d.to_string_lossy().into_owned())
}

/// What `Path::file_name` gives for a path: its last component, or nothing
/// when the path ends in `..` or has no last component.
pub uninterp spec fn path_file_name(p: Seq<char>) -> Option<Seq<char>>;

/// The last component of a path, as `Path::file_name` gives it.
#[verifier::external_body]
pub(crate) fn file_name_of(p: &str) -> (r: Option<String>)
    ensures
        match r {
            Some(d) => path_file_name(p@) == Some(d@),
            None => path_file_name(p@) is None,
        },
{
    std::path::Path::new(p).file_name().map(|d| d.to_string_lossy().into_owned())
}

/// What `Path::file_stem` gives for a path: its last component without its
/// extension, or nothing when there is no last component.
pub uninterp spec fn path_stem(p: Seq<char>) -> Option<Seq<char>>;

/// The stem of a path's file name, as `Path::file_stem` gives it.
#[verifier::external_body]
pub(crate) fn stem_of(p: &str) -> (r: Option<String>)
    ensures
        match r {
            Some(d) => path_stem(p@) == Some(d@),
            None => path_stem(p@) is None,
        },
{
    std::path::Path::new(p).file_stem().map(|d| d.to_string_lossy().into_owned())
}

/// Whether `s` takes fewer than `n` bytes in UTF-8.
pub fn shorter_than(s: &str, n: usize) -> (b: bool)
    ensures
        b == (utf8_len(s@) < n),
{
    if n == 0 {
        return false;
    }
    let v = chars_of(s);
    let mut k: usize = 0;
    let mut used: usize = 0;
    assert(s@.take(0) =~= Seq::<char>::empty());
    while k < v.len()
        invariant
            v@ == s@,
            k <= v@.len(),
            used as nat == utf8_len(s@.take(k as int)),
            used < n,
        decreases v@.len() - k,
    {
        let w = width_of(v[k]);
        proof {
            assert(s@.take(k + 1).drop_last() =~= s@.take(k as int));
        }
        if w >= n - used {
            proof {
                if k + 1 < s@.len() {
                    lemma_utf8_len_grows(s@, k + 1, s@.len() as int);
                }
                assert(s@.take(s@.len() as int) =~= s@);
            }
            return false;
        }
        used = used + w;
        k += 1;
    }
    assert(s@.take(k as int) =~= s@);
    true
}

/// Whether the first `n` bytes of `s` end on a character.
pub fn ends_on_char(s: &str, n: usize) -> (b: bool)
    ensures
        b == bytes_end_on_char(s@, n as nat),
{
    match get_prefix_bytes(s, n) {
        Some(_) => true,
        None => shorter_than(s, n),
    }
}

/// The first `n` bytes of `s`, when `s` has that many and they end on a
/// character: what `str::get(..n)` gives.
pub fn get_prefix_bytes(s: &str, n: usize) -> (r: Option<&str>)
    ensures
        match r {
            Some(p) => utf8_len(s@) >= n && bytes_end_on_char(s@, n as nat) && p@ == take_bytes(s@, n as nat),
            None => !(utf8_len(s@) >= n && bytes_end_on_char(s@, n as nat)),
        },
{
    let v = chars_of(s);
    let mut k: usize = 0;
    let mut used: usize = 0;
    while k < v.len() && used < n
        invariant
            v@ == s@,
            k <= v@.len(),
            used as nat == utf8_len(s@.take(k as int)),
            used <= n,
        decreases v@.len() - k,
    {
        let w = width_of(v[k]);
        proof {
            assert(s@.take(k + 1).drop_last() =~= s@.take(k as int));
        }
        if w > n - used {
            proof {
                assert(utf8_len(s@.take(k + 1)) > n);
                if exists|m: int| 0 <= m <= s@.len() && #[trigger] utf8_len(s@.take(m)) == n {
                    let m = choose|m: int| 0 <= m <= s@.len() && #[trigger] utf8_len(s@.take(m)) == n;
                    if m < k { lemma_utf8_len_grows(s@, m, k as int); }
                    if m > k + 1 { lemma_utf8_len_grows(s@, k + 1, m); }
                }
                assert(utf8_len(s@) > n) by {
                    if k + 1 < s@.len() { lemma_utf8_len_grows(s@, k + 1, s@.len() as int); }
                    assert(s@.take(s@.len() as int) =~= s@);
                }
            }
            return None;
        }
        used = used + w;
        k += 1;
    }
    if used < n {
        assert(s@.take(k as int) =~= s@);
        return None;
    }
    proof {
        assert(utf8_len(s@.take(k as int)) == n);
        if k < s@.len() {
            lemma_utf8_len_grows(s@, k as int, s@.len() as int);
        }
        assert(s@.take(s@.len() as int) =~= s@);
        if utf8_len(s@) > n {
            let m = choose|m: int| 0 <= m <= s@.len() && #[trigger] utf8_len(s@.take(m)) == n;
            if m < k { lemma_utf8_len_grows(s@, m, k as int); }
            if m > k { lemma_utf8_len_grows(s@, k as int, m); }
        }
    }
    Some(s.substring_char(0, k))
}

/// Whether `t` occurs in `s`.
pub open spec fn contains_text(s: Seq<char>, t: Seq<char>) -> bool {
    exists|i: int| 0 <= i && i + t.len() <= s.len() && #[trigger] s.subrange(i, i + t.len()) == t
}

/// Whether `t` occurs in `s`.
pub fn str_contains(s: &str, t: &str) -> (b: bool)
    ensures
        b == contains_text(s@, t@),
{
    let v = chars_of(s);
    let w = chars_of(t);
    if w.len() > v.len() {
        assert(!contains_text(s@, t@));
        return false;
    }
    let n = v.len();
    let last = n - w.len();
    let mut i: usize = 0;
    while i <= last
        invariant
            n == v@.len(),
            v@ == s@,
            w@ == t@,
            last == v@.len() - w@.len(),
            i <= last + 1,
            forall|k: int| 0 <= k < i ==> #[trigger] s@.subrange(k, k + t@.len()) != t@,
        decreases last + 1 - i,
    {
        let mut j: usize = 0;
        while j < w.len() && v[i + j] == w[j]
            invariant
                n == v@.len(),
                v@ == s@,
                w@ == t@,
                i <= last,
                last == v@.len() - w@.len(),
                j <= w@.len(),
                forall|m: int| 0 <= m < j ==> v@[i + m] == w@[m],
            decreases w@.len() - j,
        {
            j += 1;
        }
        if j == w.len() {
            assert(s@.subrange(i as int, i + t@.len()) =~= t@);
            return true;
        }
        assert(s@.subrange(i as int, i + t@.len())[j as int] != t@[j as int]);
        if i == last {
            assert forall|k: int| 0 <= k && k + t@.len() <= s@.len() implies
                #[trigger] s@.subrange(k, k + t@.len()) != t@ by {
                assert(k <= i);
            }
            return false;
        }
        i += 1;
    }
    false
}

/// Append copies of `src[from..]` to `dst`.
pub fn extend_strings(dst: &mut Vec<String>, src: &[String], from: usize)
    requires
        from <= src@.len(),
    ensures
        final(dst)@ == old(dst)@ + src@.subrange(from as int, src@.len() as int),
        views(final(dst)@) == views(old(dst)@) + views(src@).subrange(from as int, src@.len() as int),
{
    let ghost start = dst@;
    let mut j: usize = from;
    while j < src.len()
        invariant
            from <= j <= src@.len(),
            dst@ == start + src@.subrange(from as int, j as int),
        decreases src@.len() - j,
    {
        dst.push(src[j].clone());
        j += 1;
        assert(dst@ =~= start + src@.subrange(from as int, j as int));
    }
    assert(views(dst@) =~= views(start) + views(src@).subrange(from as int, src@.len() as int));
}

/// A signed number in decimal, with a `-` when it is negative.
pub open spec fn spec_signed(i: int) -> Seq<char> {
    if i < 0 { "-"@ + spec_decimal((-i) as nat) } else { spec_decimal(i as nat) }
}

/// `i`, written in decimal, with a `-` when it is negative.
pub fn signed_decimal(i: i64) -> (r: String)
    ensures
        r@ == spec_signed(i as int),
{
    if i < 0 {
        let magnitude: u64 = if i == i64::MIN { 0x8000_0000_0000_0000 } else { (-i) as u64 };
        let mut r = owned("-");
        push_str(&mut r, decimal(magnitude).as_str());
        r
    } else {
        decimal(i as u64)
    }
}

/// How many times `c` stands at the end of `s`.
pub open spec fn trail_count(s: Seq<char>, c: char) -> nat
    decreases s.len(),
{
    if s.len() > 0 && s.last() == c { 1 + trail_count(s.drop_last(), c) } else { 0 }
}

proof fn lemma_trail_count(s: Seq<char>, c: char, i: int)
    requires
        0 <= i <= s.len(),
        forall|j: int| s.len() - i <= j < s.len() ==> #[trigger] s[j] == c,
        i == s.len() || s[s.len() - 1 - i] != c,
    ensures
        trail_count(s, c) == i,
    decreases i,
{
    if i > 0 {
        lemma_trail_count(s.drop_last(), c, i - 1);
    }
}

/// How many times `c` stands at the end of `s`.
pub fn count_trail(s: &[char], c: char) -> (n: usize)
    ensures
        n == trail_count(s@, c),
        n <= s@.len(),
{
    let mut b = s.len();
    while b > 0 && s[b - 1] == c
        invariant
            b <= s@.len(),
            forall|j: int| b <= j < s@.len() ==> s@[j] == c,
        decreases b,
    {
        b -= 1;
    }
    proof {
        assert forall|j: int| s@.len() - (s@.len() - b) <= j < s@.len() implies #[trigger] s@[j] == c by {}
        lemma_trail_count(s@, c, s@.len() - b);
    }
    s.len() - b
}

/// A copy of a list of pairs of strings.
pub fn clone_pairs(v: &Vec<(String, String)>) -> (r: Vec<(String, String)>)
    ensures
        r@ == v@,
{
    let mut r: Vec<(String, String)> = Vec::new();
    let mut i: usize = 0;
    while i < v.len()
        invariant
            i <= v@.len(),
            r@ == v@.subrange(0, i as int),
        decreases v@.len() - i,
    {
        r.push((v[i].0.clone(), v[i].1.clone()));
        i += 1;
        assert(r@ =~= v@.subrange(0, i as int));
    }
    assert(r@ =~= v@);
    r
}

/// Whether `p` occurs in `s` at a given index.
pub open spec fn occurs_at(s: Seq<char>, p: Seq<char>) -> spec_fn(int) -> bool {
    |i: int| s.subrange(i, i + p.len()) == p
}

/// The first index at which `p` occurs in `s`, if it does.
pub open spec fn find_text(s: Seq<char>, p: Seq<char>) -> Option<int> {
    let k = first_from(0, s.len() - p.len() + 1, occurs_at(s, p));
    if p.len() <= s.len() && k <= s.len() - p.len() { Some(k) } else { None }
}

/// The first index at which `p` occurs in `s`, if it does.
pub fn find_in(s: &[char], p: &[char]) -> (r: Option<usize>)
    ensures
        match (r, find_text(s@, p@)) {
            (Some(a), Some(b)) => a == b,
            (None, None) => true,
            _ => false,
        },
{
    if p.len() > s.len() {
        return None;
    }
    let n = s.len();
    let last = n - p.len();
    let ghost hi = s@.len() - p@.len() + 1;
    let ghost q = occurs_at(s@, p@);
    let mut i: usize = 0;
    while i <= last
        invariant
            n == s@.len(),
            last == s@.len() - p@.len(),
            hi == last + 1,
            q == occurs_at(s@, p@),
            i <= last + 1,
            first_from(0, hi, q) == first_from(i as int, hi, q),
        decreases last + 1 - i,
    {
        let mut j: usize = 0;
        while j < p.len() && s[i + j] == p[j]
            invariant
                n == s@.len(),
                i <= last,
                last == s@.len() - p@.len(),
                j <= p@.len(),
                forall|m: int| 0 <= m < j ==> s@[i + m] == p@[m],
            decreases p@.len() - j,
        {
            j += 1;
        }
        if j == p.len() {
            assert(s@.subrange(i as int, i + p@.len()) =~= p@);
            assert(q(i as int));
            assert(first_from(i as int, hi, q) == i);
            return Some(i);
        }
        assert(s@.subrange(i as int, i + p@.len())[j as int] != p@[j as int]);
        proof {
            lemma_first_from_skip(i as int, i + 1, hi, q);
        }
        if i == last {
            assert(first_from(hi, hi, q) == hi);
            return None;
        }
        i += 1;
    }
    None
}

/// `s` without the characters `c` at either end.
pub open spec fn trim_char(s: Seq<char>, c: char) -> Seq<char> {
    let a = lead_count(s, c);
    let rest = s.subrange(a as int, s.len() as int);
    rest.subrange(0, rest.len() - trail_count(rest, c))
}

/// `s[from..to]` without the characters `c` at either end.
pub fn trim_char_span(s: &[char], from: usize, to: usize, c: char) -> (r: (usize, usize))
    requires
        from <= to <= s@.len(),
    ensures
        from <= r.0 <= r.1 <= to,
        s@.subrange(r.0 as int, r.1 as int) == trim_char(s@.subrange(from as int, to as int), c),
{
    let n = count_lead(s, from, to, c);
    let a = from + n;
    let ghost t = s@.subrange(from as int, to as int);
    let ghost rest = t.subrange(n as int, t.len() as int);
    assert(rest =~= s@.subrange(a as int, to as int));
    let sub: Vec<char> = slice_to_vec(s, a, to);
    let m = count_trail(sub.as_slice(), c);
    assert(sub@ == rest);
    let b = to - m;
    assert(rest.subrange(0, rest.len() - m) =~= s@.subrange(a as int, b as int));
    (a, b)
}

/// A copy of `s[from..to]`.
pub fn slice_to_vec(s: &[char], from: usize, to: usize) -> (r: Vec<char>)
    requires
        from <= to <= s@.len(),
    ensures
        r@ == s@.subrange(from as int, to as int),
{
    let mut r: Vec<char> = Vec::new();
    let mut i = from;
    while i < to
        invariant
            from <= i <= to <= s@.len(),
            r@ == s@.subrange(from as int, i as int),
        decreases to - i,
    {
        r.push(s[i]);
        i += 1;
        assert(r@ =~= s@.subrange(from as int, i as int));
    }
    r
}

/// How many white-space characters `s` begins with, given where the first
/// other one is.
pub proof fn lemma_lead_ws_pub(s: Seq<char>, i: int)
    requires
        0 <= i <= s.len(),
        forall|j: int| 0 <= j < i ==> is_ws(#[trigger] s[j]),
        i == s.len() || !is_ws(s[i]),
    ensures
        lead_ws(s) == i,
{
    lemma_lead_ws(s, i);
}

/// Where `find_text` finds `p`, it is there, and it fits.
pub proof fn lemma_find_text_bounds(s: Seq<char>, p: Seq<char>)
    ensures
        find_text(s, p) matches Some(k) ==> 0 <= k && k + p.len() <= s.len() && s.subrange(k, k + p.len()) == p,
{
    if p.len() <= s.len() {
        let q = occurs_at(s, p);
        let hi = s.len() - p.len() + 1;
        lemma_first_from_bounds(0, hi, q);
        let k = first_from(0, hi, q);
        assert(find_text(s, p) == (if k <= s.len() - p.len() { Some(k) } else { None::<int> }));
        if k < hi {
            assert(q(k));
        }
    }
}

/// `s` from `i` on, each occurrence of `p` (not empty) replaced by `r`,
/// left to right and without overlap.
pub open spec fn replaced_from(s: Seq<char>, p: Seq<char>, r: Seq<char>, i: int) -> Seq<char>
    decreases s.len() - i,
{
    if i < 0 || i >= s.len() {
        Seq::empty()
    } else if p.len() > 0 && i + p.len() <= s.len() && s.subrange(i, i + p.len()) == p {
        r + replaced_from(s, p, r, i + p.len())
    } else {
        seq![s[i]] + replaced_from(s, p, r, i + 1)
    }
}

/// `r` before each character of `s` and after the last: what replacing the
/// empty pattern gives.
pub open spec fn interleaved(s: Seq<char>, r: Seq<char>) -> Seq<char>
    decreases s.len(),
{
    if s.len() == 0 {
        r
    } else {
        interleaved(s.drop_last(), r) + seq![s.last()] + r
    }
}

/// `s` with every occurrence of `p` replaced by `r`, as `str::replace` does.
pub open spec fn replaced(s: Seq<char>, p: Seq<char>, r: Seq<char>) -> Seq<char> {
    if p.len() == 0 { interleaved(s, r) } else { replaced_from(s, p, r, 0) }
}

/// `s` with every occurrence of `p` replaced by `r`.
pub fn replace_all(s: &str, p: &str, r: &str) -> (out: String)
    ensures
        out@ == replaced(s@, p@, r@),
{
    let v = chars_of(s);
    let pv = chars_of(p);
    let mut out = String::new();
    if pv.len() == 0 {
        push_str(&mut out, r);
        let mut i: usize = 0;
        while i < v.len()
            invariant
                v@ == s@,
                i <= v@.len(),
                out@ == interleaved(v@.take(i as int), r@),
            decreases v@.len() - i,
        {
            push_char(&mut out, v[i]);
            push_str(&mut out, r);
            i += 1;
            assert(v@.take(i as int).drop_last() =~= v@.take(i - 1));
        }
        assert(v@.take(i as int) =~= s@);
        return out;
    }
    let mut i: usize = 0;
    while i < v.len()
        invariant
            v@ == s@,
            pv@ == p@,
            pv@.len() > 0,
            i <= v@.len(),
            out@ + replaced_from(s@, p@, r@, i as int) == replaced_from(s@, p@, r@, 0),
        decreases v@.len() - i,
    {
        let n = v.len();
        let mut hit = pv.len() <= n - i;
        let mut j: usize = 0;
        while hit && j < pv.len()
            invariant
                v@ == s@,
                pv@ == p@,
                i < v@.len(),
                n == v@.len(),
                hit ==> i + pv@.len() <= v@.len(),
                j <= pv@.len(),
                hit ==> forall|k: int| 0 <= k < j ==> v@[i + k] == pv@[k],
                !hit ==> !(i + pv@.len() <= v@.len() && v@.subrange(i as int, i + pv@.len()) == pv@),
            decreases pv@.len() - j + (if hit { 1int } else { 0int }),
        {
            let at = i + j;
            if v[at] != pv[j] {
                assert(v@.subrange(i as int, i + pv@.len())[j as int] == v@[i + j]);
                hit = false;
            } else {
                j += 1;
            }
        }
        if hit {
            assert(v@.subrange(i as int, i + pv@.len()) =~= pv@);
            push_str(&mut out, r);
            i = i + pv.len();
        } else {
            push_char(&mut out, v[i]);
            i += 1;
        }
    }
    assert(replaced_from(s@, p@, r@, i as int) =~= Seq::<char>::empty());
    assert(out@ + Seq::<char>::empty() =~= out@);
    out
}

/// The last index at or below `k` that `q` holds of, or -1.
pub open spec fn last_from(k: int, q: spec_fn(int) -> bool) -> int
    decreases k + 1,
{
    if k < 0 { -1 } else if q(k) { k } else { last_from(k - 1, q) }
}

/// The last index at which `p` occurs in `s`, if it does.
pub open spec fn rfind_text(s: Seq<char>, p: Seq<char>) -> Option<int> {
    if p.len() <= s.len() && last_from(s.len() - p.len(), occurs_at(s, p)) >= 0 {
        Some(last_from(s.len() - p.len(), occurs_at(s, p)))
    } else {
        None
    }
}

/// The last index at which `p` occurs in `s`, if it does.
pub fn rfind_in(s: &[char], p: &[char]) -> (r: Option<usize>)
    ensures
        match (r, rfind_text(s@, p@)) {
            (Some(a), Some(b)) => a == b && a + p@.len() <= s@.len() && s@.subrange(a as int, a + p@.len()) == p@,
            (None, None) => true,
            _ => false,
        },
{
    if p.len() > s.len() {
        return None;
    }
    let n = s.len();
    let ghost q = occurs_at(s@, p@);
    let mut at: usize = n - p.len();
    loop
        invariant
            n == s@.len(),
            p@.len() <= n,
            at + p@.len() <= n,
            q == occurs_at(s@, p@),
            last_from(s@.len() - p@.len(), q) == last_from(at as int, q),
        decreases at,
    {
        let mut j: usize = 0;
        while j < p.len() && s[at + j] == p[j]
            invariant
                n == s@.len(),
                at + p@.len() <= n,
                j <= p@.len(),
                forall|m: int| 0 <= m < j ==> s@[at + m] == p@[m],
            decreases p@.len() - j,
        {
            j += 1;
        }
        if j == p.len() {
            assert(s@.subrange(at as int, at + p@.len()) =~= p@);
            assert(q(at as int));
            return Some(at);
        }
        assert(s@.subrange(at as int, at + p@.len())[j as int] != p@[j as int]);
        assert(!q(at as int));
        if at == 0 {
            assert(last_from(-1, q) == -1);
            return None;
        }
        at = at - 1;
    }
}

/// `s` without `p` at its end, as many times as it is there.
pub open spec fn strip_suffixes(s: Seq<char>, p: Seq<char>) -> Seq<char>
    decreases s.len(),
{
    if p.len() > 0 && has_suffix(s, p) {
        strip_suffixes(s.take(s.len() - p.len()), p)
    } else {
        s
    }
}

/// How long `s` stays once `p` is taken off its end as many times as it is
/// there.
pub fn strip_suffixes_len(s: &[char], p: &[char]) -> (n: usize)
    ensures
        n <= s@.len(),
        s@.take(n as int) == strip_suffixes(s@, p@),
{
    let mut n = s.len();
    assert(s@.take(n as int) =~= s@);
    if p.len() == 0 {
        return n;
    }
    loop
        invariant
            n <= s@.len(),
            p@.len() > 0,
            strip_suffixes(s@, p@) == strip_suffixes(s@.take(n as int), p@),
        decreases n,
    {
        if p.len() > n {
            return n;
        }
        let from = n - p.len();
        let mut j: usize = 0;
        while j < p.len() && s[from + j] == p[j]
            invariant
                from + p@.len() == n <= s@.len(),
                j <= p@.len(),
                forall|m: int| 0 <= m < j ==> s@[from + m] == p@[m],
            decreases p@.len() - j,
        {
            j += 1;
        }
        let ghost t = s@.take(n as int);
        if j < p.len() {
            assert(t.subrange(t.len() - p@.len(), t.len() as int)[j as int] != p@[j as int]);
            return n;
        }
        assert(t.subrange(t.len() - p@.len(), t.len() as int) =~= p@);
        assert(t.take(t.len() - p@.len()) =~= s@.take(from as int));
        n = from;
    }
}

/// The first index at or after `from` in `s[..to]` whose character is not
/// one of `cs`, or `to`.
pub fn skip_chars(s: &[char], from: usize, to: usize, cs: &[char]) -> (r: usize)
    requires
        from <= to <= s@.len(),
    ensures
        from <= r <= to,
        forall|k: int| from <= k < r ==> cs@.contains(#[trigger] s@[k]),
        r < to ==> !cs@.contains(s@[r as int]),
{
    let mut i = from;
    while i < to
        invariant
            from <= i <= to <= s@.len(),
            forall|k: int| from <= k < i ==> cs@.contains(#[trigger] s@[k]),
        decreases to - i,
    {
        let mut j: usize = 0;
        let mut found = false;
        while j < cs.len()
            invariant
                j <= cs@.len(),
                i < s@.len(),
                found == exists|m: int| 0 <= m < j && cs@[m] == s@[i as int],
            decreases cs@.len() - j,
        {
            if cs[j] == s[i] {
                found = true;
            }
            j += 1;
        }
        if !found {
            assert(!cs@.contains(s@[i as int]));
            return i;
        }
        i += 1;
    }
    i
}

/// The pairs `(key, value)` as a map.
pub open spec fn pairs_map(v: Seq<(String, String)>) -> Map<Seq<char>, Seq<char>>
    decreases v.len(),
{
    if v.len() == 0 {
        Map::empty()
    } else {
        pairs_map(v.drop_last()).insert(v.last().0@, v.last().1@)
    }
}

/// Keys each once, in order.
pub open spec fn keys_sorted(v: Seq<(String, String)>) -> bool {
    forall|i: int, j: int| 0 <= i < j < v.len() ==> lex_lt(#[trigger] v[i].0@, #[trigger] v[j].0@)
}

proof fn lemma_pairs_map_sorted_insert(v: Seq<(String, String)>, k: int, x: (String, String))
    requires
        keys_sorted(v),
        0 <= k <= v.len(),
        forall|j: int| 0 <= j < k ==> lex_lt(#[trigger] v[j].0@, x.0@),
        forall|j: int| k <= j < v.len() ==> lex_lt(x.0@, #[trigger] v[j].0@),
    ensures
        pairs_map(v.take(k).push(x) + v.skip(k)) == pairs_map(v).insert(x.0@, x.1@),
        keys_sorted(v.take(k).push(x) + v.skip(k)),
    decreases v.len(),
{
    let w = v.take(k).push(x) + v.skip(k);
    if k == v.len() {
        assert(w =~= v.push(x));
        assert(w.drop_last() =~= v);
    } else {
        let d = v.drop_last();
        assert(keys_sorted(d));
        lemma_pairs_map_sorted_insert(d, k, x);
        assert(w.drop_last() =~= d.take(k).push(x) + d.skip(k));
        assert(w.last() == v.last());
        lemma_lex_irreflexive(x.0@);
        assert(x.0@ != v.last().0@);
        assert(pairs_map(w) =~= pairs_map(v).insert(x.0@, x.1@));
    }
    assert forall|i: int, j: int| 0 <= i < j < w.len() implies lex_lt(#[trigger] w[i].0@, #[trigger] w[j].0@) by {
        if i < k && j == k {
        } else if i == k && j > k {
            assert(w[j] == v[j - 1]);
        } else if i < k && j > k {
            assert(w[j] == v[j - 1]);
        } else {
            assert(j > k ==> w[j] == v[j - 1]);
            assert(i > k ==> w[i] == v[i - 1]);
        }
    }
}

proof fn lemma_pairs_map_replace(v: Seq<(String, String)>, k: int, x: (String, String))
    requires
        keys_sorted(v),
        0 <= k < v.len(),
        v[k].0@ == x.0@,
    ensures
        pairs_map(v.update(k, x)) == pairs_map(v).insert(x.0@, x.1@),
        keys_sorted(v.update(k, x)),
    decreases v.len(),
{
    let w = v.update(k, x);
    if k == v.len() - 1 {
        assert(w.drop_last() =~= v.drop_last());
        assert(pairs_map(w) =~= pairs_map(v).insert(x.0@, x.1@));
    } else {
        let d = v.drop_last();
        lemma_pairs_map_replace(d, k, x);
        assert(w.drop_last() =~= d.update(k, x));
        assert(lex_lt(v[k].0@, v.last().0@));
        lemma_lex_irreflexive(x.0@);
        assert(pairs_map(w) =~= pairs_map(v).insert(x.0@, x.1@));
    }
}

/// `x` put in its place among pairs kept in key order, replacing the pair
/// with its key if there is one.
pub fn put_pair(env: &mut Vec<(String, String)>, x: (String, String))
    requires
        keys_sorted(old(env)@),
    ensures
        keys_sorted(final(env)@),
        pairs_map(final(env)@) == pairs_map(old(env)@).insert(x.0@, x.1@),
{
    let key = chars_of(x.0.as_str());
    let mut k: usize = 0;
    while k < env.len() && text_less(chars_of(env[k].0.as_str()).as_slice(), key.as_slice())
        invariant
            k <= env@.len(),
            key@ == x.0@,
            keys_sorted(env@),
            forall|j: int| 0 <= j < k ==> lex_lt(#[trigger] env@[j].0@, x.0@),
        decreases env@.len() - k,
    {
        k += 1;
    }
    if k < env.len() && str_eq(env[k].0.as_str(), x.0.as_str()) {
        proof {
            lemma_pairs_map_replace(env@, k as int, x);
        }
        env.set(k, x);
        return;
    }
    proof {
        if k < env@.len() {
            assert(env@[k as int].0@ != x.0@);
            lemma_lex_total(env@[k as int].0@, x.0@);
        }
        assert forall|j: int| k <= j < env@.len() implies lex_lt(x.0@, #[trigger] env@[j].0@) by {
            if j > k {
                lemma_lex_trans(x.0@, env@[k as int].0@, env@[j].0@);
            }
        }
        lemma_pairs_map_sorted_insert(env@, k as int, x);
    }
    let ghost before = env@;
    env.insert(k, x);
    assert(env@ =~= before.take(k as int).push(x) + before.skip(k as int));
}


/// The value a key-ordered list of pairs holds for one of its keys.
pub proof fn lemma_pairs_map_at(v: Seq<(String, String)>, i: int)
    requires
        keys_sorted(v),
        0 <= i < v.len(),
    ensures
        pairs_map(v).dom().contains(v[i].0@),
        pairs_map(v)[v[i].0@] == v[i].1@,
    decreases v.len(),
{
    if i < v.len() - 1 {
        let d = v.drop_last();
        lemma_pairs_map_at(d, i);
        assert(lex_lt(v[i].0@, v.last().0@));
        lemma_lex_irreflexive(v[i].0@);
    }
}

/// A key no pair has is not in the map.
pub proof fn lemma_pairs_map_absent(v: Seq<(String, String)>, k: Seq<char>)
    requires
        forall|j: int| 0 <= j < v.len() ==> (#[trigger] v[j]).0@ != k,
    ensures
        !pairs_map(v).dom().contains(k),
    decreases v.len(),
{
    if v.len() > 0 {
        lemma_pairs_map_absent(v.drop_last(), k);
    }
}

proof fn lemma_next_newline_shift(p: Seq<char>, t: Seq<char>, j: int)
    requires
        0 <= j <= t.len(),
    ensures
        next_newline(p + t, p.len() + j) == p.len() + next_newline(t, j),
    decreases t.len() - j,
{
    let s = p + t;
    if j < t.len() {
        assert(s[p.len() + j] == t[j]);
        if t[j] != '\n' {
            lemma_next_newline_shift(p, t, j + 1);
        }
    }
}

proof fn lemma_lines_from_shift(p: Seq<char>, t: Seq<char>, j: int)
    requires
        0 <= j <= t.len(),
    ensures
        lines_from(p + t, p.len() + j) == lines_from(t, j),
    decreases t.len() - j,
{
    let s = p + t;
    if j < t.len() {
        lemma_next_newline_shift(p, t, j);
        lemma_next_newline_bounds(t, j);
        let k = next_newline(t, j);
        if k < t.len() {
            lemma_lines_from_shift(p, t, k + 1);
            assert(s.subrange(p.len() + j, p.len() + k) =~= t.subrange(j, k));
        } else {
            assert(s.subrange(p.len() + j, s.len() as int) =~= t.subrange(j, t.len() as int));
        }
    }
}

proof fn lemma_next_newline_prefix(p: Seq<char>, t: Seq<char>, i: int)
    requires
        0 <= i < p.len(),
        p.last() == '\n',
    ensures
        next_newline(p + t, i) == next_newline(p, i),
        next_newline(p, i) < p.len(),
    decreases p.len() - i,
{
    let s = p + t;
    assert(s[i] == p[i]);
    if p[i] != '\n' {
        lemma_next_newline_prefix(p, t, i + 1);
    }
}

proof fn lemma_lines_from_prefix(p: Seq<char>, t: Seq<char>, i: int)
    requires
        0 <= i <= p.len(),
        p.len() > 0,
        p.last() == '\n',
    ensures
        lines_from(p + t, i) == lines_from(p, i) + lines_from(p + t, p.len() as int),
    decreases p.len() - i,
{
    let s = p + t;
    if i == p.len() {
        assert(lines_from(p, i) =~= Seq::<Seq<char>>::empty());
        assert(lines_from(p, i) + lines_from(s, p.len() as int) =~= lines_from(s, p.len() as int));
    } else {
        lemma_next_newline_prefix(p, t, i);
        lemma_next_newline_bounds(p, i);
        let k = next_newline(p, i);
        lemma_lines_from_prefix(p, t, k + 1);
        assert(s.subrange(i, k) =~= p.subrange(i, k));
        assert(seq![strip_cr(p.subrange(i, k))] + lines_from(p, k + 1) + lines_from(s, p.len() as int)
            =~= seq![strip_cr(p.subrange(i, k))] + (lines_from(p, k + 1) + lines_from(s, p.len() as int)));
    }
}

/// The lines of two texts put end to end, the first ending its last line.
pub proof fn lemma_lines_concat(p: Seq<char>, t: Seq<char>)
    requires
        p.len() > 0,
        p.last() == '\n',
    ensures
        lines(p + t) == lines(p) + lines(t),
{
    lemma_lines_from_prefix(p, t, 0);
    lemma_lines_from_shift(p, t, 0);
}

/// Whether `s` holds no line feed.
pub open spec fn no_newline(s: Seq<char>) -> bool {
    forall|i: int| 0 <= i < s.len() ==> s[i] != '\n'
}

/// One line, ended.
pub proof fn lemma_lines_single(l: Seq<char>)
    requires
        no_newline(l),
    ensures
        lines(l + seq!['\n']) == seq![strip_cr(l)],
{
    let s = l + seq!['\n'];
    lemma_next_newline(s, 0, l.len() as int);
    assert(s[l.len() as int] == '\n');
    assert(s.subrange(0, l.len() as int) =~= l);
    assert(lines_from(s, (l.len() + 1) as int) =~= Seq::<Seq<char>>::empty());
    assert(seq![strip_cr(l)] + Seq::<Seq<char>>::empty() =~= seq![strip_cr(l)]);
}

/// The text whose lines are `ls`, each ended by a line feed.
pub open spec fn body_of(ls: Seq<Seq<char>>) -> Seq<char> {
    join(ls, "\n"@) + "\n"@
}

/// Lines written each with a line feed read back as they were, but for a
/// carriage return at their end.
pub proof fn lemma_lines_of_body(ls: Seq<Seq<char>>)
    requires
        ls.len() > 0,
        forall|i: int| 0 <= i < ls.len() ==> no_newline(#[trigger] ls[i]),
    ensures
        lines(body_of(ls)) == ls.map_values(|l: Seq<char>| strip_cr(l)),
    decreases ls.len(),
{
    reveal_strlit("\n");
    assert("\n"@ =~= seq!['\n']);
    if ls.len() == 1 {
        lemma_lines_single(ls[0]);
        assert(body_of(ls) =~= ls[0] + seq!['\n']);
        assert(ls.map_values(|l: Seq<char>| strip_cr(l)) =~= seq![strip_cr(ls[0])]);
    } else {
        let d = ls.drop_last();
        assert forall|i: int| 0 <= i < d.len() implies no_newline(#[trigger] d[i]) by {
            assert(d[i] == ls[i]);
        }
        lemma_lines_of_body(d);
        let p = body_of(d);
        let last = ls.last() + seq!['\n'];
        assert(body_of(ls) =~= p + last);
        assert(p.last() == '\n');
        lemma_lines_concat(p, last);
        assert(no_newline(ls[ls.len() - 1]));
        lemma_lines_single(ls.last());
        assert(ls.map_values(|l: Seq<char>| strip_cr(l)) =~= d.map_values(|l: Seq<char>| strip_cr(l)).push(strip_cr(ls.last())));
    }
}

/// No line of a text holds a line feed.
pub proof fn lemma_lines_no_newline(s: Seq<char>, i: int)
    requires
        0 <= i,
    ensures
        forall|j: int| 0 <= j < lines_from(s, i).len() ==> no_newline(#[trigger] lines_from(s, i)[j]),
    decreases s.len() - i,
{
    if i < s.len() {
        lemma_next_newline_bounds(s, i);
        let k = next_newline(s, i);
        lemma_next_newline_none(s, i);
        if k < s.len() {
            lemma_lines_no_newline(s, k + 1);
            let l = strip_cr(s.subrange(i, k));
            assert(no_newline(s.subrange(i, k)));
            assert(no_newline(l));
            assert forall|j: int| 0 <= j < lines_from(s, i).len() implies no_newline(#[trigger] lines_from(s, i)[j]) by {
                if j > 0 {
                    assert(lines_from(s, i)[j] == lines_from(s, k + 1)[j - 1]);
                }
            }
        } else {
            assert(no_newline(s.subrange(i, s.len() as int)));
        }
    }
}

proof fn lemma_next_newline_none(s: Seq<char>, i: int)
    requires
        0 <= i <= s.len(),
    ensures
        forall|j: int| i <= j < next_newline(s, i) ==> s[j] != '\n',
    decreases s.len() - i,
{
    if i < s.len() && s[i] != '\n' {
        lemma_next_newline_none(s, i + 1);
    }
}

/// Trimming does not see a carriage return at the end.
pub proof fn lemma_trim_strip_cr(l: Seq<char>)
    ensures
        trim(strip_cr(l)) == trim(l),
{
    if l.len() > 0 && l.last() == '\r' {
        let d = l.drop_last();
        lemma_lead_ws_drop_last(l);
        let a = trim_start(l);
        let b = trim_start(d);
        if lead_ws(l) == l.len() {
            assert(a.len() == 0);
            assert(lead_ws(d) == d.len());
            assert(b.len() == 0);
            assert(trim_end(a) =~= trim_end(b));
        } else {
            assert(lead_ws(d) == lead_ws(l));
            assert(b =~= a.drop_last());
            assert(a.last() == '\r');
            assert(trail_ws(a) == 1 + trail_ws(a.drop_last()));
            lemma_trail_ws_bound(b);
            assert(a.subrange(0, a.len() - trail_ws(a)) =~= b.subrange(0, b.len() - trail_ws(b)));
        }
    }
}

proof fn lemma_lead_ws_drop_last(l: Seq<char>)
    requires
        l.len() > 0,
        is_ws(l.last()),
    ensures
        lead_ws(l) == l.len() ==> lead_ws(l.drop_last()) == l.drop_last().len(),
        lead_ws(l) < l.len() ==> lead_ws(l.drop_last()) == lead_ws(l),
        lead_ws(l) <= l.len(),
    decreases l.len(),
{
    if l.len() > 1 && is_ws(l[0]) {
        let r = l.drop_first();
        assert(r.last() == l.last());
        lemma_lead_ws_drop_last(r);
        assert(l.drop_last().drop_first() =~= r.drop_last());
    } else if l.len() == 1 {
        assert(l.drop_last().len() == 0);
        assert(l.drop_first().len() == 0);
        assert(lead_ws(l.drop_first()) == 0);
    }
}

proof fn lemma_trail_ws_bound(s: Seq<char>)
    ensures
        trail_ws(s) <= s.len(),
    decreases s.len(),
{
    if s.len() > 0 {
        lemma_trail_ws_bound(s.drop_last());
    }
}

/// What trimming leaves begins and ends with something that is not white
/// space.
pub proof fn lemma_trim_ends(s: Seq<char>)
    ensures
        trim(s).len() > 0 ==> !is_ws(trim(s)[0]) && !is_ws(trim(s).last()),
{
    lemma_lead_ws_stops(s);
    let a = trim_start(s);
    lemma_trail_ws_stops(a);
    lemma_trail_ws_bound(a);
    if trim(s).len() > 0 {
        assert(trim(s)[0] == a[0]);
        assert(a[0] == s[lead_ws(s) as int]);
        assert(trim(s).last() == a[a.len() - trail_ws(a) - 1]);
    }
}

proof fn lemma_lead_ws_stops(s: Seq<char>)
    ensures
        lead_ws(s) <= s.len(),
        lead_ws(s) < s.len() ==> !is_ws(s[lead_ws(s) as int]),
    decreases s.len(),
{
    if s.len() > 0 && is_ws(s[0]) {
        lemma_lead_ws_stops(s.drop_first());
    }
}

proof fn lemma_trail_ws_stops(s: Seq<char>)
    ensures
        trail_ws(s) <= s.len(),
        trail_ws(s) < s.len() ==> !is_ws(s[s.len() - trail_ws(s) - 1]),
    decreases s.len(),
{
    if s.len() > 0 && is_ws(s.last()) {
        lemma_trail_ws_stops(s.drop_last());
    }
}

/// A text that begins and ends with something that is not white space is
/// its own trim.
pub proof fn lemma_trim_fixed(s: Seq<char>)
    requires
        s.len() > 0,
        !is_ws(s[0]),
        !is_ws(s.last()),
    ensures
        trim(s) == s,
{
    assert(lead_ws(s) == 0);
    assert(trim_start(s) =~= s);
    assert(trail_ws(s) == 0);
    assert(trim_end(s) =~= s);
}

/// A line feed in a text is a line feed it contains.
pub proof fn lemma_contains_char(s: Seq<char>, i: int, t: Seq<char>)
    requires
        0 <= i < s.len(),
        t == seq![s[i]],
    ensures
        contains_text(s, t),
{
    assert(s.subrange(i, i + 1) =~= t);
}

} // verus!
