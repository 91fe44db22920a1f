#![verifier::loop_isolation(false)]

//! Dollar-math scanning with Pandoc heuristics.
//!
//! Inline `$…$` needs a non-space after the opener and a non-space before
//! the closer, and the closer must not be followed by a digit (so `$5` /
//! `$5 and $10` currency stays literal). Display `$$…$$` is the lenient
//! block form: surrounding whitespace/newlines are allowed and the trimmed
//! content must be non-empty. Content is verbatim.
//!
//! Output is span passthrough: inline renders
//! `<span class="math-inline">…</span>` (HTML-escaped content) and display
//! renders `<div class="math-display">…</div>`.

use vstd::prelude::*;
use crate::html_escape::{push_escaped, spec_escape_html};
use crate::text::{chars_of, is_ascii_digit, push_str, slice, spec_ascii_digit, spec_trim, string_of, trim};

verus! {

broadcast use vstd::string::group_string_axioms;

/// One math-aware text segment.
#[derive(Debug, PartialEq, Eq)]
pub enum MathSegment {
    /// Plain text (no math).
    Text(String),
    /// `$…$` content (verbatim, delimiters stripped).
    Inline(String),
    /// `$$…$$` content (verbatim, delimiters stripped).
    Display(String),
}

/// Math-boundary whitespace: space, tab, newline, CR.
pub open spec fn math_ws(c: char) -> bool {
    c == ' ' || c == '\t' || c == '\n' || c == '\r'
}

fn is_ws(c: char) -> (r: bool)
    ensures
        r == math_ws(c),
{
    c == ' ' || c == '\t' || c == '\n' || c == '\r'
}

/// Where a display closer for the opener at `open` may stand: `$$` at `j`
/// not followed by a third `$`, past the opener, not followed by a digit
/// or `$`, with non-blank content between.
pub open spec fn display_close_ok(c: Seq<char>, open: int, j: int) -> bool {
    &&& open + 2 < j
    &&& j + 1 < c.len()
    &&& c[j] == '$' && c[j + 1] == '$'
    &&& !(j + 2 < c.len() && c[j + 2] == '$')
    &&& !(j + 2 < c.len() && (spec_ascii_digit(c[j + 2]) || c[j + 2] == '$'))
    &&& spec_trim(c.subrange(open + 2, j), 0).len() > 0
}

/// The scan for a display closer from `j`: a `$$$` run moves on by
/// one, a `$$` pair that cannot close moves past itself, anything else
/// by one character.
pub open spec fn display_scan(c: Seq<char>, open: int, j: int) -> Option<int>
    decreases c.len() - j,
{
    if j < 0 || j + 1 >= c.len() {
        None
    } else if c[j] == '$' && c[j + 1] == '$' {
        if j + 2 < c.len() && c[j + 2] == '$' {
            display_scan(c, open, j + 1)
        } else if j > open + 2 && !(j + 2 < c.len() && (spec_ascii_digit(c[j + 2]) || c[j + 2]
            == '$')) && spec_trim(c.subrange(open + 2, j), 0).len() > 0 {
            Some(j)
        } else {
            display_scan(c, open, j + 2)
        }
    } else {
        display_scan(c, open, j + 1)
    }
}

/// Find the closing `$$` for the opener at `open` (points at first `$`).
fn find_display_close(chars: &Vec<char>, open: usize) -> (r: Option<usize>)
    requires
        open + 1 < chars.len(),
    ensures
        match r {
            Some(j) => display_scan(chars@, open as int, open + 2) == Some(j as int),
            None => display_scan(chars@, open as int, open + 2) is None,
        },
        match r {
            Some(j) => display_close_ok(chars@, open as int, j as int),
            None => true,
        },
{
    let n = chars.len();
    let mut j = open + 2;
    while j < n && n - j > 1
        invariant
            open + 2 <= j <= n,
            n == chars@.len(),
            display_scan(chars@, open as int, j as int) == display_scan(chars@, open as int, open + 2),
        decreases n - j,
    {
        if chars[j] == '$' && chars[j + 1] == '$' {
            if j + 2 < n && chars[j + 2] == '$' {
                j += 1;
                continue;
            }
            if j > open + 2 {
                let k = j + 2;
                if k < n && (is_ascii_digit(chars[k]) || chars[k] == '$') {
                    j += 2;
                    continue;
                }
                let content = slice(chars, open + 2, j);
                let t = trim(&content);
                if t.len() > 0 {
                    return Some(j);
                }
            }
            j += 2;
            continue;
        }
        j += 1;
    }
    None
}

/// Where an inline closer for the opener at `open` may stand.
pub open spec fn inline_close_ok(c: Seq<char>, open: int, j: int) -> bool {
    &&& open + 1 < j < c.len()
    &&& c[j] == '$'
    &&& c[j - 1] != '$'
    &&& !(j + 1 < c.len() && c[j + 1] == '$')
    &&& !math_ws(c[j - 1])
    &&& !(j + 1 < c.len() && spec_ascii_digit(c[j + 1]))
}

/// The scan for an inline closer from `j`: a `$` beside another `$`
/// moves past the pair, anything else that cannot close by one character.
pub open spec fn inline_scan(c: Seq<char>, open: int, j: int) -> Option<int>
    decreases c.len() - j,
{
    if j < 0 || j >= c.len() {
        None
    } else if c[j] == '$' {
        let next = j + 1 < c.len() && c[j + 1] == '$';
        if (j > 0 && c[j - 1] == '$') || next {
            inline_scan(
                c,
                open,
                if next {
                    j + 2
                } else {
                    j + 1
                },
            )
        } else if j > open + 1 && !math_ws(c[j - 1]) && !(j + 1 < c.len() && spec_ascii_digit(
            c[j + 1],
        )) {
            Some(j)
        } else {
            inline_scan(c, open, j + 1)
        }
    } else {
        inline_scan(c, open, j + 1)
    }
}

/// Find the closing single `$` for the opener at `open`.
fn find_inline_close(chars: &Vec<char>, open: usize) -> (r: Option<usize>)
    requires
        open < chars.len(),
    ensures
        match r {
            Some(j) => inline_scan(chars@, open as int, open + 1) == Some(j as int),
            None => inline_scan(chars@, open as int, open + 1) is None,
        },
        match r {
            Some(j) => inline_close_ok(chars@, open as int, j as int),
            None => true,
        },
{
    let n = chars.len();
    let mut j = open + 1;
    while j < n
        invariant
            open + 1 <= j,
            n == chars@.len(),
            inline_scan(chars@, open as int, j as int) == inline_scan(chars@, open as int, open + 1),
        decreases n - j,
    {
        if chars[j] == '$' {
            let prev_dollar = j > 0 && chars[j - 1] == '$';
            let next_dollar = j + 1 < n && chars[j + 1] == '$';
            if prev_dollar || next_dollar {
                if next_dollar {
                    j += 2;
                } else {
                    j += 1;
                }
                continue;
            }
            if j > open + 1 && !is_ws(chars[j - 1]) {
                let k = j + 1;
                if k >= n || !is_ascii_digit(chars[k]) {
                    return Some(j);
                }
            }
        }
        j += 1;
    }
    None
}

/// What a segment stands for in the source: text verbatim, inline math
/// inside `$…$`, display math inside `$$…$$`.
pub open spec fn segment_source(s: MathSegment) -> Seq<char> {
    match s {
        MathSegment::Text(t) => t@,
        MathSegment::Inline(t) => seq!['$'] + t@ + seq!['$'],
        MathSegment::Display(t) => seq!['$', '$'] + t@ + seq!['$', '$'],
    }
}

pub open spec fn segments_source(s: Seq<MathSegment>) -> Seq<char>
    decreases s.len(),
{
    if s.len() == 0 {
        Seq::empty()
    } else {
        segments_source(s.drop_last()) + segment_source(s.last())
    }
}

proof fn lemma_segments_push(s: Seq<MathSegment>, x: MathSegment)
    ensures
        segments_source(s.push(x)) == segments_source(s) + segment_source(x),
{
    assert(s.push(x).drop_last() =~= s);
}

/// A segment as a value.
pub ghost enum MSeg {
    Text(Seq<char>),
    Inline(Seq<char>),
    Display(Seq<char>),
}

pub open spec fn seg_view(s: MathSegment) -> MSeg {
    match s {
        MathSegment::Text(t) => MSeg::Text(t@),
        MathSegment::Inline(t) => MSeg::Inline(t@),
        MathSegment::Display(t) => MSeg::Display(t@),
    }
}

pub open spec fn segs_view(s: Seq<MathSegment>) -> Seq<MSeg> {
    s.map_values(|x: MathSegment| seg_view(x))
}

/// The segments with the pending text, if any, closed.
pub open spec fn flush_text(out: Seq<MSeg>, buf: Seq<char>) -> Seq<MSeg> {
    if buf.len() > 0 {
        out.push(MSeg::Text(buf))
    } else {
        out
    }
}

/// The split of `c` from position `i`, after segments `out` and pending
/// text `buf`. A `$$` that is part of `$$$` stays text one `$` at a time;
/// a `$$` opens display math where a closer is found (else both stay
/// text); a single `$` followed by a non-blank opens inline math where a
/// closer is found. Text runs between math spans become one segment, and
/// an empty input gives one empty text segment.
pub open spec fn math_scan(c: Seq<char>, i: int, out: Seq<MSeg>, buf: Seq<char>) -> Seq<MSeg>
    decreases c.len() - i,
{
    if i < 0 || i >= c.len() {
        let o = flush_text(out, buf);
        if o.len() == 0 {
            seq![MSeg::Text(Seq::empty())]
        } else {
            o
        }
    } else if c[i] != '$' {
        math_scan(c, i + 1, out, buf.push(c[i]))
    } else if i + 1 < c.len() && c[i + 1] == '$' {
        if i + 2 < c.len() && c[i + 2] == '$' {
            math_scan(c, i + 1, out, buf.push('$'))
        } else {
            match display_scan(c, i, i + 2) {
                Some(j) => if i < j && j + 2 <= c.len() {
                    math_scan(c, j + 2, flush_text(out, buf).push(MSeg::Display(c.subrange(i + 2, j))), Seq::empty())
                } else {
                    out
                },
                None => math_scan(c, i + 2, out, buf.push('$').push('$')),
            }
        }
    } else if i + 1 >= c.len() || math_ws(c[i + 1]) {
        math_scan(c, i + 1, out, buf.push('$'))
    } else {
        match inline_scan(c, i, i + 1) {
            Some(j) => if i < j && j + 1 <= c.len() {
                math_scan(c, j + 1, flush_text(out, buf).push(MSeg::Inline(c.subrange(i + 1, j))), Seq::empty())
            } else {
                out
            },
            None => math_scan(c, i + 1, out, buf.push('$')),
        }
    }
}

/// The segments of `c`.
pub open spec fn spec_split_math(c: Seq<char>) -> Seq<MSeg> {
    math_scan(c, 0, Seq::empty(), Seq::empty())
}

/// A well-formed segment: inline content is non-empty with no blank at
/// either end; display content is not blank.
pub open spec fn seg_ok(s: MSeg) -> bool {
    match s {
        MSeg::Text(_) => true,
        MSeg::Inline(t) => t.len() > 0 && !math_ws(t[0]) && !math_ws(t.last()),
        MSeg::Display(t) => spec_trim(t, 0).len() > 0,
    }
}

proof fn lemma_segs_push(s: Seq<MathSegment>, x: MathSegment)
    ensures
        segs_view(s.push(x)) == segs_view(s).push(seg_view(x)),
{
    assert(segs_view(s.push(x)) =~= segs_view(s).push(seg_view(x)));
}

/// Split `s` at `$…$` / `$$…$$` spans. Unclosed delimiters stay literal.
/// The segments always spell the source back (`segments_source`), and
/// there is at least one. Every inline segment is non-empty with no
/// blank at either end, every display segment is not blank.
#[verifier::spinoff_prover]
#[verifier::rlimit(60)]
pub fn split_math_chars(chars: &Vec<char>) -> (out: Vec<MathSegment>)
    ensures
        segs_view(out@) == spec_split_math(chars@),
        segments_source(out@) == chars@,
        out@.len() >= 1,
        forall|k: int| 0 <= k < out@.len() ==> seg_ok(#[trigger] segs_view(out@)[k]),
{
    let n = chars.len();
    let mut out: Vec<MathSegment> = Vec::new();
    let mut buf: Vec<char> = Vec::new();
    let mut i: usize = 0;
    assert(segs_view(out@) =~= Seq::<MSeg>::empty());
    while i < n
        invariant
            i <= n,
            n == chars@.len(),
            segments_source(out@) + buf@ == chars@.take(i as int),
            math_scan(chars@, i as int, segs_view(out@), buf@) == spec_split_math(chars@),
            forall|k: int| 0 <= k < out@.len() ==> seg_ok(#[trigger] segs_view(out@)[k]),
        decreases n - i,
    {
        let ghost before = segments_source(out@) + buf@;
        let ghost o0 = segs_view(out@);
        let ghost b0 = buf@;
        if chars[i] != '$' {
            buf.push(chars[i]);
            i += 1;
            assert(segments_source(out@) + buf@ =~= chars@.take(i as int));
            continue;
        }
        if i + 1 < n && chars[i + 1] == '$' {
            if i + 2 < n && chars[i + 2] == '$' {
                buf.push('$');
                i += 1;
                assert(segments_source(out@) + buf@ =~= chars@.take(i as int));
                continue;
            }
            match find_display_close(chars, i) {
                Some(j) => {
                    if buf.len() > 0 {
                        let t = string_of(&buf);
                        proof {
                            lemma_segments_push(out@, MathSegment::Text(t));
                            lemma_segs_push(out@, MathSegment::Text(t));
                        }
                        out.push(MathSegment::Text(t));
                        buf.clear();
                    }
                    let content = slice(chars, i + 2, j);
                    let t = string_of(&content);
                    proof {
                        lemma_segments_push(out@, MathSegment::Display(t));
                        lemma_segs_push(out@, MathSegment::Display(t));
                        assert(content@ =~= chars@.subrange(i + 2, j as int));
                    }
                    out.push(MathSegment::Display(t));
                    assert(display_scan(chars@, i as int, i + 2) == Some(j as int));
                    assert(segs_view(out@) == flush_text(o0, b0).push(MSeg::Display(chars@.subrange(i + 2, j as int))));
                    assert(buf@ =~= Seq::<char>::empty());
                    i = j + 2;
                    assert(segments_source(out@) + buf@ =~= chars@.take(i as int));
                },
                None => {
                    buf.push('$');
                    buf.push('$');
                    i += 2;
                    assert(segments_source(out@) + buf@ =~= chars@.take(i as int));
                },
            }
            continue;
        }
        if i + 1 >= n || is_ws(chars[i + 1]) {
            buf.push('$');
            i += 1;
            assert(segments_source(out@) + buf@ =~= chars@.take(i as int));
            continue;
        }
        match find_inline_close(chars, i) {
            Some(j) => {
                if buf.len() > 0 {
                    let t = string_of(&buf);
                    proof {
                        lemma_segments_push(out@, MathSegment::Text(t));
                        lemma_segs_push(out@, MathSegment::Text(t));
                    }
                    out.push(MathSegment::Text(t));
                    buf.clear();
                }
                let content = slice(chars, i + 1, j);
                let t = string_of(&content);
                proof {
                    lemma_segments_push(out@, MathSegment::Inline(t));
                    lemma_segs_push(out@, MathSegment::Inline(t));
                    assert(content@ =~= chars@.subrange(i + 1, j as int));
                }
                out.push(MathSegment::Inline(t));
                assert(inline_scan(chars@, i as int, i + 1) == Some(j as int));
                assert(segs_view(out@) == flush_text(o0, b0).push(MSeg::Inline(chars@.subrange(i + 1, j as int))));
                assert(buf@ =~= Seq::<char>::empty());
                i = j + 1;
                assert(segments_source(out@) + buf@ =~= chars@.take(i as int));
            },
            None => {
                buf.push('$');
                i += 1;
                assert(segments_source(out@) + buf@ =~= chars@.take(i as int));
            },
        }
    }
    if buf.len() > 0 {
        let t = string_of(&buf);
        proof {
            lemma_segments_push(out@, MathSegment::Text(t));
            lemma_segs_push(out@, MathSegment::Text(t));
        }
        out.push(MathSegment::Text(t));
    }
    if out.len() == 0 {
        let t = String::new();
        proof {
            lemma_segments_push(out@, MathSegment::Text(t));
            lemma_segs_push(out@, MathSegment::Text(t));
            assert(segs_view(out@) =~= Seq::<MSeg>::empty());
        }
        out.push(MathSegment::Text(t));
    }
    assert(chars@.take(n as int) =~= chars@);
    out
}

/// Split `s` at `$…$` / `$$…$$` spans. Unclosed delimiters stay literal.
pub fn split_math_text(s: &str) -> (out: Vec<MathSegment>)
    ensures
        segs_view(out@) == spec_split_math(s@),
        segments_source(out@) == s@,
        out@.len() >= 1,
        forall|k: int| 0 <= k < out@.len() ==> seg_ok(#[trigger] segs_view(out@)[k]),
{
    let v = chars_of(s);
    split_math_chars(&v)
}

/// Inline math span HTML (content escaped, verbatim otherwise).
pub fn render_inline_math(content: &str) -> (r: String)
    ensures
        r@ == "<span class=\"math-inline\">"@ + spec_escape_html(content@) + "</span>"@,
{
    let mut out: Vec<char> = Vec::new();
    push_str(&mut out, "<span class=\"math-inline\">");
    let v = chars_of(content);
    push_escaped(&mut out, &v);
    push_str(&mut out, "</span>");
    string_of(&out)
}

/// Display math block HTML (content escaped, verbatim otherwise).
pub fn render_display_math(content: &str) -> (r: String)
    ensures
        r@ == "<div class=\"math-display\">"@ + spec_escape_html(content@) + "</div>"@,
{
    let mut out: Vec<char> = Vec::new();
    push_str(&mut out, "<div class=\"math-display\">");
    let v = chars_of(content);
    push_escaped(&mut out, &v);
    push_str(&mut out, "</div>");
    string_of(&out)
}

proof fn lemma_inline_scan_skip(s: Seq<char>, j: int, e: int)
    requires
        1 <= j <= e < s.len(),
        forall|x: int| 1 <= x < e ==> s[x] != '$',
    ensures
        inline_scan(s, 0, j) == inline_scan(s, 0, e),
    decreases e - j,
{
    if j < e {
        lemma_inline_scan_skip(s, j + 1, e);
    }
}

proof fn lemma_scan_text_run(s: Seq<char>, i: int, out: Seq<MSeg>, buf: Seq<char>)
    requires
        0 <= i <= s.len(),
        forall|x: int| i <= x < s.len() ==> s[x] != '$',
    ensures
        math_scan(s, i, out, buf) == math_scan(s, s.len() as int, out, buf + s.subrange(i, s.len() as int)),
    decreases s.len() - i,
{
    if i < s.len() {
        lemma_scan_text_run(s, i + 1, out, buf.push(s[i]));
        assert(buf.push(s[i]) + s.subrange(i + 1, s.len() as int) =~= buf + s.subrange(i, s.len() as int));
    } else {
        assert(buf + s.subrange(i, s.len() as int) =~= buf);
    }
}

/// Inline math closes before whatever is not a digit or a `$`: a
/// non-empty content without `$` and without a blank at either end,
/// between single dollars and followed by text without `$` that does not
/// start with a digit, splits into that inline math and that text.
pub proof fn law_inline_math_closes(c: Seq<char>, r: Seq<char>)
    requires
        c.len() > 0,
        forall|k: int| 0 <= k < c.len() ==> c[k] != '$',
        !math_ws(c[0]) && !math_ws(c.last()),
        forall|k: int| 0 <= k < r.len() ==> r[k] != '$',
        r.len() > 0 ==> !spec_ascii_digit(r[0]),
    ensures
        spec_split_math(seq!['$'] + c + seq!['$'] + r) == (if r.len() == 0 {
            seq![MSeg::Inline(c)]
        } else {
            seq![MSeg::Inline(c), MSeg::Text(r)]
        }),
{
    let s = seq!['$'] + c + seq!['$'] + r;
    let j: int = c.len() as int + 1;
    assert(s[0] == '$');
    assert(s[1] == c[0]);
    assert(s[j] == '$');
    assert(s[j - 1] == c.last());
    assert forall|x: int| 1 <= x < j implies s[x] != '$' by {
        assert(s[x] == c[x - 1]);
    }
    lemma_inline_scan_skip(s, 1, j);
    if r.len() > 0 {
        assert(s[j + 1] == r[0]);
    }
    assert(inline_scan(s, 0, j) == Some(j));
    assert(s.subrange(1, j) =~= c);
    assert forall|x: int| j + 1 <= x < s.len() implies s[x] != '$' by {
        assert(s[x] == r[x - j - 1]);
    }
    let out = seq![MSeg::Inline(c)];
    assert(flush_text(Seq::empty(), Seq::empty()).push(MSeg::Inline(c)) =~= out);
    lemma_scan_text_run(s, j + 1, out, Seq::empty());
    assert(Seq::<char>::empty() + s.subrange(j + 1, s.len() as int) =~= r);
    if r.len() > 0 {
        assert(out.push(MSeg::Text(r)) =~= seq![MSeg::Inline(c), MSeg::Text(r)]);
    }
}

proof fn lemma_display_scan_skip(s: Seq<char>, j: int, e: int)
    requires
        2 <= j <= e,
        e + 1 < s.len(),
        forall|x: int| 2 <= x < e ==> s[x] != '$',
    ensures
        display_scan(s, 0, j) == display_scan(s, 0, e),
    decreases e - j,
{
    if j < e {
        lemma_display_scan_skip(s, j + 1, e);
    }
}

/// Display math closes before whatever is not a digit or a `$`: a
/// non-blank content without `$` between double dollars, followed by text
/// without `$` that does not start with a digit, splits into that display
/// math and that text.
pub proof fn law_display_math_closes(c: Seq<char>, r: Seq<char>)
    requires
        spec_trim(c, 0).len() > 0,
        forall|k: int| 0 <= k < c.len() ==> c[k] != '$',
        forall|k: int| 0 <= k < r.len() ==> r[k] != '$',
        r.len() > 0 ==> !spec_ascii_digit(r[0]),
    ensures
        spec_split_math(seq!['$', '$'] + c + seq!['$', '$'] + r) == (if r.len() == 0 {
            seq![MSeg::Display(c)]
        } else {
            seq![MSeg::Display(c), MSeg::Text(r)]
        }),
{
    let s = seq!['$', '$'] + c + seq!['$', '$'] + r;
    let j: int = c.len() as int + 2;
    assert(c.len() > 0);
    assert(s[0] == '$' && s[1] == '$');
    assert(s[2] == c[0]);
    assert(s[j] == '$' && s[j + 1] == '$');
    assert forall|x: int| 2 <= x < j implies s[x] != '$' by {
        assert(s[x] == c[x - 2]);
    }
    lemma_display_scan_skip(s, 2, j);
    if r.len() > 0 {
        assert(s[j + 2] == r[0]);
    }
    assert(s.subrange(2, j) =~= c);
    assert(display_scan(s, 0, j) == Some(j));
    assert forall|x: int| j + 2 <= x < s.len() implies s[x] != '$' by {
        assert(s[x] == r[x - j - 2]);
    }
    let out = seq![MSeg::Display(c)];
    assert(flush_text(Seq::empty(), Seq::empty()).push(MSeg::Display(c)) =~= out);
    lemma_scan_text_run(s, j + 2, out, Seq::empty());
    assert(Seq::<char>::empty() + s.subrange(j + 2, s.len() as int) =~= r);
    if r.len() > 0 {
        assert(out.push(MSeg::Text(r)) =~= seq![MSeg::Display(c), MSeg::Text(r)]);
    }
}

/// A digit right after the closing `$` keeps the dollars literal: a
/// content without `$` between single dollars, followed by a digit and
/// text without `$`, is all text.
pub proof fn law_digit_after_inline_closer(c: Seq<char>, r: Seq<char>)
    requires
        c.len() > 0,
        forall|k: int| 0 <= k < c.len() ==> c[k] != '$',
        !math_ws(c[0]),
        r.len() > 0 && spec_ascii_digit(r[0]),
        forall|k: int| 0 <= k < r.len() ==> r[k] != '$',
    ensures
        spec_split_math(seq!['$'] + c + seq!['$'] + r) == seq![MSeg::Text(seq!['$'] + c + seq!['$'] + r)],
{
    let s = seq!['$'] + c + seq!['$'] + r;
    let j: int = c.len() as int + 1;
    let n = s.len() as int;
    assert(s[0] == '$');
    assert(s[1] == c[0]);
    assert(s[j] == '$');
    assert(s[j + 1] == r[0]);
    assert forall|x: int| 1 <= x < j implies s[x] != '$' by {
        assert(s[x] == c[x - 1]);
    }
    lemma_inline_scan_skip(s, 1, j);
    assert forall|x: int| j + 1 <= x < n implies s[x] != '$' by {
        assert(s[x] == r[x - j - 1]);
    }
    lemma_inline_scan_none(s, 0, j + 1);
    lemma_inline_scan_none(s, j, j + 1);
    assert(inline_scan(s, 0, j) == inline_scan(s, 0, j + 1));
    assert(inline_scan(s, 0, 1) is None);
    let e: Seq<MSeg> = Seq::empty();
    assert(math_scan(s, 0, e, Seq::empty()) == math_scan(s, 1, e, seq!['$']));
    lemma_scan_text_run_dollars(s, 1, e, seq!['$'], j);
    assert(seq!['$'] + s.subrange(1, n) =~= s);
}

proof fn lemma_inline_scan_none(s: Seq<char>, open: int, j: int)
    requires
        0 <= j <= s.len(),
        forall|x: int| j <= x < s.len() ==> s[x] != '$',
    ensures
        inline_scan(s, open, j) is None,
    decreases s.len() - j,
{
    if j < s.len() {
        lemma_inline_scan_none(s, open, j + 1);
    }
}

/// The text run from `i` on, where the one `$` at `d` cannot open math.
proof fn lemma_scan_text_run_dollars(s: Seq<char>, i: int, out: Seq<MSeg>, buf: Seq<char>, d: int)
    requires
        1 <= i <= s.len(),
        i <= d < s.len(),
        s[d] == '$',
        d + 1 < s.len() && !math_ws(s[d + 1]) && s[d + 1] != '$',
        inline_scan(s, d, d + 1) is None,
        forall|x: int| i <= x < s.len() && x != d ==> s[x] != '$',
    ensures
        math_scan(s, i, out, buf) == math_scan(s, s.len() as int, out, buf + s.subrange(i, s.len() as int)),
    decreases s.len() - i,
{
    if i < d {
        lemma_scan_text_run_dollars(s, i + 1, out, buf.push(s[i]), d);
        assert(buf.push(s[i]) + s.subrange(i + 1, s.len() as int) =~= buf + s.subrange(i, s.len() as int));
    } else {
        assert(math_scan(s, d, out, buf) == math_scan(s, d + 1, out, buf.push('$')));
        lemma_scan_text_run(s, d + 1, out, buf.push('$'));
        assert(buf.push('$') + s.subrange(d + 1, s.len() as int) =~= buf + s.subrange(d, s.len() as int));
    }
}

/// A `$` followed by a blank opens no math: such a `$` before text
/// without `$` is all text.
pub proof fn law_blank_after_dollar(r: Seq<char>)
    requires
        r.len() > 0 && math_ws(r[0]),
        forall|k: int| 0 <= k < r.len() ==> r[k] != '$',
    ensures
        spec_split_math(seq!['$'] + r) == seq![MSeg::Text(seq!['$'] + r)],
{
    let s = seq!['$'] + r;
    assert(s[1] == r[0]);
    assert forall|x: int| 1 <= x < s.len() implies s[x] != '$' by {
        assert(s[x] == r[x - 1]);
    }
    lemma_scan_text_run(s, 1, Seq::empty(), seq!['$']);
    assert(seq!['$'] + s.subrange(1, s.len() as int) =~= s);
}

} // verus!
