#![verifier::loop_isolation(false)]

//! Markdown to HTML (CommonMark 0.31.2 core): a container-block parser with
//! lazy continuation, link reference definitions, and inline rendering.
//!
//! Per CommonMark, HTML blocks and inline raw HTML are passed through
//! verbatim, not escaped; normal-text escaping applies everywhere else.
//! XSS sanitization is the consumer's responsibility.

use vstd::prelude::*;
pub use crate::Options;
use crate::error::Error;
use crate::html_escape::{push_escaped, unescape_chars};
use crate::inline_parser::{
    inline_html_chars, normalize_label_chars, parse_inline_chars, tag_end_at, RefDefs, RV, refs_view, rv_insert,
};
use crate::text::{
    spec_decimal, all_class, chars_of, copy, eq_str, eq_vec, find_from, in_class_exec, is_ascii_alnum,
    is_ascii_alpha, is_ascii_digit, is_ascii_punct, is_control, is_whitespace, lower_ascii,
    lower_ascii_vec, push_decimal, push_str, push_vec, skip_class, slice, starts_with_at,
    string_of, trim, trim_end_class, utf8_len, matches_at, spec_ascii_alpha,
};

verus! {

broadcast use vstd::string::group_string_axioms;

// ---------------------------------------------------------------------------
// Block AST
// ---------------------------------------------------------------------------

/// A parsed block.
pub enum Block {
    Paragraph(Vec<Vec<char>>),
    Heading(u8, Vec<char>, crate::ast::HeadingKind),
    ThematicBreak(char),
    IndentedCode(Vec<Vec<char>>),
    FencedCode { info: Vec<char>, lines: Vec<Vec<char>>, fence_char: char, fence_len: usize },
    HtmlBlock(Vec<Vec<char>>),
    BlockQuote(Vec<Block>),
    List {
        ordered: bool,
        start: u32,
        tight: bool,
        items: Vec<Vec<Block>>,
        bullet: char,
        delimiter: char,
    },
    /// A pipe table: header cells, per-column alignment, body rows (each
    /// padded or truncated to the header width when rendered).
    Table { header: Vec<Vec<char>>, aligns: Vec<Align>, rows: Vec<Vec<Vec<char>>> },
}

/// A parsed block as a mathematical value.
pub ghost enum MB {
    Paragraph(Seq<Seq<char>>),
    Heading(u8, Seq<char>, crate::ast::HeadingKind),
    ThematicBreak(char),
    IndentedCode(Seq<Seq<char>>),
    FencedCode { info: Seq<char>, lines: Seq<Seq<char>>, fence_char: char, fence_len: usize },
    HtmlBlock(Seq<Seq<char>>),
    BlockQuote(Seq<MB>),
    List {
        ordered: bool,
        start: u32,
        tight: bool,
        items: Seq<Seq<MB>>,
        bullet: char,
        delimiter: char,
    },
    Table { header: Seq<Seq<char>>, aligns: Seq<Align>, rows: Seq<Seq<Seq<char>>> },
}

pub open spec fn lines_view(ls: Seq<Vec<char>>) -> Seq<Seq<char>> {
    ls.map_values(|l: Vec<char>| l@)
}

pub open spec fn rows_view(rs: Seq<Vec<Vec<char>>>) -> Seq<Seq<Seq<char>>> {
    rs.map_values(|r: Vec<Vec<char>>| lines_view(r@))
}

pub open spec fn mb_view(b: Block) -> MB
    decreases b, 1nat,
{
    match b {
        Block::Paragraph(ls) => MB::Paragraph(lines_view(ls@)),
        Block::Heading(l, c, k) => MB::Heading(l, c@, k),
        Block::ThematicBreak(m) => MB::ThematicBreak(m),
        Block::IndentedCode(ls) => MB::IndentedCode(lines_view(ls@)),
        Block::FencedCode { info, lines, fence_char, fence_len } => MB::FencedCode {
            info: info@,
            lines: lines_view(lines@),
            fence_char,
            fence_len,
        },
        Block::HtmlBlock(ls) => MB::HtmlBlock(lines_view(ls@)),
        Block::BlockQuote(c) => MB::BlockQuote(mbs_view(c@)),
        Block::List { ordered, start, tight, items, bullet, delimiter } => MB::List {
            ordered,
            start,
            tight,
            items: items_view(items@),
            bullet,
            delimiter,
        },
        Block::Table { header, aligns, rows } => MB::Table {
            header: lines_view(header@),
            aligns: aligns@,
            rows: rows_view(rows@),
        },
    }
}

pub open spec fn mbs_view(bs: Seq<Block>) -> Seq<MB>
    decreases bs, 0nat,
{
    if bs.len() == 0 {
        Seq::empty()
    } else {
        mbs_view(bs.drop_last()).push(mb_view(bs.last()))
    }
}

pub open spec fn items_view(items: Seq<Vec<Block>>) -> Seq<Seq<MB>>
    decreases items, 0nat,
{
    if items.len() == 0 {
        Seq::empty()
    } else {
        items_view(items.drop_last()).push(mbs_view(items.last()@))
    }
}

pub proof fn lemma_mbs_push(bs: Seq<Block>, b: Block)
    ensures
        mbs_view(bs.push(b)) == mbs_view(bs).push(mb_view(b)),
{
    assert(bs.push(b).drop_last() =~= bs);
}

pub proof fn lemma_items_push(items: Seq<Vec<Block>>, it: Vec<Block>)
    ensures
        items_view(items.push(it)) == items_view(items).push(mbs_view(it@)),
{
    assert(items.push(it).drop_last() =~= items);
}

pub proof fn lemma_mbs_view_props(bs: Seq<Block>)
    ensures
        mbs_view(bs).len() == bs.len(),
        forall|k: int| 0 <= k < bs.len() ==> #[trigger] mbs_view(bs)[k] == mb_view(bs[k]),
    decreases bs.len(),
{
    if bs.len() > 0 {
        lemma_mbs_view_props(bs.drop_last());
    }
}

pub proof fn lemma_items_view_props(items: Seq<Vec<Block>>)
    ensures
        items_view(items).len() == items.len(),
        forall|k: int| 0 <= k < items.len() ==> #[trigger] items_view(items)[k] == mbs_view(items[k]@),
    decreases items.len(),
{
    if items.len() > 0 {
        lemma_items_view_props(items.drop_last());
    }
}

/// Column alignment of a pipe table.
#[derive(Clone, Copy, PartialEq, Eq, Structural)]
pub enum Align {
    Unset,
    Left,
    Center,
    Right,
}

/// A source line plus its tab phase (absolute column mod 4 at the start
/// of `s`) and whether it entered the current container as a lazy
/// continuation.
pub struct PLine {
    pub s: Vec<char>,
    pub phase: usize,
    pub lazy: bool,
}

/// A line as values: its text, tab phase and whether it is a lazy
/// continuation line.
pub type LV = (Seq<char>, usize, bool);

pub open spec fn pline_view(l: PLine) -> LV {
    (l.s@, l.phase, l.lazy)
}

pub open spec fn plines_view(v: Seq<PLine>) -> Seq<LV> {
    v.map_values(|l: PLine| pline_view(l))
}

fn fresh(s: Vec<char>) -> (l: PLine)
    ensures
        l.s@ == s@,
        l.phase == 0,
        !l.lazy,
{
    PLine { s, phase: 0, lazy: false }
}

fn copy_line(l: &PLine) -> (r: PLine)
    ensures
        r.s@ == l.s@,
        r.phase == l.phase,
        r.lazy == l.lazy,
{
    PLine { s: copy(&l.s), phase: l.phase, lazy: l.lazy }
}

// ---------------------------------------------------------------------------
// Line helpers (tab-aware, tab stops of 4)
// ---------------------------------------------------------------------------

/// `x` capped at the largest `usize`.
pub open spec fn sat(x: int) -> int {
    if x > usize::MAX {
        usize::MAX as int
    } else {
        x
    }
}

/// Leading spaces and tabs of `s` from `k`, `c` columns counted so far
/// from tab phase `phase`: (index of the first other character, columns).
pub open spec fn ws_scan(s: Seq<char>, phase: int, k: int, c: int) -> (int, int)
    decreases s.len() - k,
{
    if k < 0 || k >= s.len() {
        (k, c)
    } else if s[k] == ' ' {
        ws_scan(s, phase, k + 1, sat(c + 1))
    } else if s[k] == '\t' {
        ws_scan(s, phase, k + 1, sat(c + 4 - sat(phase + c) % 4))
    } else {
        (k, c)
    }
}

/// Leading whitespace from tab phase `phase`: (index of the first
/// non-whitespace character, columns advanced). Tabs advance to the next
/// multiple of 4.
fn ws_end_col(s: &Vec<char>, phase: usize) -> (r: (usize, usize))
    ensures
        r.0 <= s.len(),
        (r.0 as int, r.1 as int) == ws_scan(s@, phase as int, 0, 0),
{
    let mut c: usize = 0;
    let mut k: usize = 0;
    while k < s.len()
        invariant
            k <= s.len(),
            ws_scan(s@, phase as int, k as int, c as int) == ws_scan(s@, phase as int, 0, 0),
        decreases s.len() - k,
    {
        let ch = s[k];
        if ch == ' ' {
            c = c.saturating_add(1);
            k += 1;
        } else if ch == '\t' {
            c = c.saturating_add(4 - (phase.saturating_add(c) % 4));
            k += 1;
        } else {
            break;
        }
    }
    (k, c)
}

/// Relative indent of a line: columns of leading whitespace.
fn indent_rel(line: &PLine) -> (r: usize)
    ensures
        r as int == ws_scan(line.s@, line.phase as int, 0, 0).1,
{
    ws_end_col(&line.s, line.phase).1
}

/// Stripping up to `n` columns of leading whitespace of `s` from `k`,
/// `c` columns consumed so far: (index after what is consumed, columns
/// consumed, spaces left over from a partly consumed tab).
pub open spec fn strip_scan(s: Seq<char>, phase: int, n: int, k: int, c: int) -> (int, int, int)
    decreases s.len() - k,
{
    if k < 0 || k >= s.len() || c >= n {
        (k, c, 0)
    } else if s[k] == ' ' {
        strip_scan(s, phase, n, k + 1, sat(c + 1))
    } else if s[k] == '\t' {
        let span = 4 - sat(phase + c) % 4;
        if sat(c + span) <= n {
            strip_scan(s, phase, n, k + 1, sat(c + span))
        } else {
            (k + 1, n, span - (n - c))
        }
    } else {
        (k, c, 0)
    }
}

/// A line with up to `n` columns of leading whitespace stripped: its text
/// and its new tab phase.
pub open spec fn strip_view(s: Seq<char>, phase: int, n: int) -> (Seq<char>, int) {
    let r = strip_scan(s, phase, n, 0, 0);
    (Seq::new(r.2 as nat, |_i: int| ' ') + s.skip(r.0), sat(phase + r.1) % 4)
}

proof fn lemma_strip_scan(s: Seq<char>, phase: int, n: int, k: int, c: int)
    requires
        0 <= k <= s.len(),
        0 <= c <= n,
        0 <= phase,
    ensures
        k <= strip_scan(s, phase, n, k, c).0 <= s.len(),
        0 <= strip_scan(s, phase, n, k, c).2 <= 3,
    decreases s.len() - k,
{
    if k < s.len() && c < n {
        if s[k] == ' ' {
            if sat(c + 1) <= n {
                lemma_strip_scan(s, phase, n, k + 1, sat(c + 1));
            } else {
                lemma_strip_scan_over(s, phase, n, k + 1, sat(c + 1));
            }
        } else if s[k] == '\t' {
            let span = 4 - sat(phase + c) % 4;
            if sat(c + span) <= n {
                lemma_strip_scan(s, phase, n, k + 1, sat(c + span));
            }
        }
    }
}

proof fn lemma_strip_scan_over(s: Seq<char>, phase: int, n: int, k: int, c: int)
    requires
        0 <= k <= s.len(),
        c >= n,
    ensures
        strip_scan(s, phase, n, k, c) == (k, c, 0int),
{
}

/// Strip up to `n` columns of leading whitespace. A fully-consumed tab
/// vanishes; a partially-consumed tab leaves its remainder as spaces. The
/// phase advances by the consumed amount. Never strips non-whitespace.
fn strip_cols(line: &PLine, n: usize) -> (r: PLine)
    ensures
        r.phase < 4,
        r.lazy == line.lazy,
        r.s@.len() <= line.s@.len() + 3,
        (r.s@, r.phase as int) == strip_view(line.s@, line.phase as int, n as int),
{
    let ghost total = strip_scan(line.s@, line.phase as int, n as int, 0, 0);
    let mut c: usize = 0;
    let mut k: usize = 0;
    let mut extra: usize = 0;
    let mut done = false;
    proof {
        lemma_strip_scan(line.s@, line.phase as int, n as int, 0, 0);
    }
    while k < line.s.len() && !done
        invariant
            k <= line.s.len(),
            extra <= 3,
            c <= n,
            !done ==> extra == 0 && strip_scan(line.s@, line.phase as int, n as int, k as int, c as int) == total,
            done ==> (k as int, c as int, extra as int) == total,
        decreases 2 * (line.s.len() - k) + (if done { 0int } else { 1int }),
    {
        if c >= n {
            done = true;
        } else {
            let ch = line.s[k];
            if ch == ' ' {
                c = c.saturating_add(1);
                k += 1;
            } else if ch == '\t' {
                let span = 4 - (line.phase.saturating_add(c) % 4);
                if c.saturating_add(span) <= n {
                    c = c.saturating_add(span);
                    k += 1;
                } else {
                    // Partial tab: the remainder becomes spaces, the tab is
                    // consumed.
                    extra = span - (n - c);
                    c = n;
                    k += 1;
                    done = true;
                }
            } else {
                done = true;
            }
        }
    }
    let mut out: Vec<char> = Vec::new();
    let mut e: usize = 0;
    while e < extra
        invariant
            e <= extra <= 3,
            out@ == Seq::new(e as nat, |_i: int| ' '),
        decreases extra - e,
    {
        out.push(' ');
        e += 1;
        assert(out@ =~= Seq::new(e as nat, |_i: int| ' '));
    }
    let rest = slice(&line.s, k, line.s.len());
    push_vec(&mut out, &rest);
    assert(rest@ =~= line.s@.skip(k as int));
    PLine { s: out, phase: line.phase.saturating_add(c) % 4, lazy: line.lazy }
}

/// Only spaces, tabs and carriage returns.
pub open spec fn spec_is_blank(s: Seq<char>) -> bool {
    forall|k: int| 0 <= k < s.len() ==> (#[trigger] s[k] == ' ' || s[k] == '\t' || s[k] == '\r')
}

/// Only spaces, tabs and carriage returns.
fn is_blank(s: &Vec<char>) -> (r: bool)
    ensures
        r == spec_is_blank(s@),
{
    let mut k: usize = 0;
    while k < s.len()
        invariant
            k <= s.len(),
            forall|j: int| 0 <= j < k ==> (#[trigger] s@[j] == ' ' || s@[j] == '\t' || s@[j] == '\r'),
        decreases s.len() - k,
    {
        let c = s[k];
        if !(c == ' ' || c == '\t' || c == '\r') {
            return false;
        }
        k += 1;
    }
    true
}

/// A line with up to 3 columns of indent stripped (text, phase); `None`
/// when the indent exceeds 3.
pub open spec fn after_small(s: Seq<char>, phase: int) -> Option<(Seq<char>, int)> {
    if ws_scan(s, phase, 0, 0).1 > 3 {
        None
    } else {
        Some(strip_view(s, phase, 3))
    }
}

/// Strip up to 3 columns of indent; `None` when the indent exceeds 3.
fn after_small_indent(line: &PLine) -> (r: Option<PLine>)
    ensures
        r matches Some(l) ==> l.phase < 4,
        match r {
            Some(l) => after_small(line.s@, line.phase as int) == Some((l.s@, l.phase as int)) && l.lazy == line.lazy,
            None => after_small(line.s@, line.phase as int) is None,
        },
{
    if indent_rel(line) > 3 {
        return None;
    }
    Some(strip_cols(line, 3))
}

/// Length of the run of `c` starting at `from`.
fn run_len(s: &Vec<char>, from: usize, c: char) -> (n: usize)
    requires
        from <= s.len(),
    ensures
        from + n <= s.len(),
        from + n == crate::inline_parser::ch_run(s@, from as int, c),
{
    proof {
        crate::inline_parser::lemma_ch_run(s@, from as int, c);
    }
    let mut k = from;
    while k < s.len() && s[k] == c
        invariant
            from <= k <= s.len(),
            crate::inline_parser::ch_run(s@, k as int, c) == crate::inline_parser::ch_run(s@, from as int, c),
        decreases s.len() - k,
    {
        k += 1;
    }
    k - from
}

// ---------------------------------------------------------------------------
// Leaf-block detectors
// ---------------------------------------------------------------------------

/// The break scan from `k`: blanks skipped, every other character equal
/// to the first, which is `-`, `_` or `*`; three or more of them.
pub open spec fn tb_scan(t: Seq<char>, k: int, ch0: Option<char>, count: nat) -> bool
    decreases t.len() - k,
{
    if k < 0 || k >= t.len() {
        count >= 3
    } else if t[k] == ' ' || t[k] == '\t' {
        tb_scan(t, k + 1, ch0, count)
    } else {
        match ch0 {
            None => if t[k] != '-' && t[k] != '_' && t[k] != '*' {
                false
            } else {
                tb_scan(t, k + 1, Some(t[k]), 1)
            },
            Some(m) => if t[k] != m {
                false
            } else {
                tb_scan(t, k + 1, ch0, count + 1)
            },
        }
    }
}

/// Thematic break: up to 3 indent, then 3+ of one of `-`, `_`, `*`, with
/// spaces/tabs anywhere.
pub open spec fn spec_thematic_break(s: Seq<char>, phase: int) -> bool {
    match after_small(s, phase) {
        Some((t, _)) => tb_scan(t, 0, None, 0),
        None => false,
    }
}

/// Thematic break: up to 3 indent, then 3+ of one of `-`, `_`, `*`, with
/// spaces/tabs anywhere.
fn is_thematic_break(line: &PLine) -> (r: bool)
    ensures
        r == spec_thematic_break(line.s@, line.phase as int),
{
    let t = match after_small_indent(line) {
        Some(t) => t.s,
        None => {
            return false;
        },
    };
    let mut ch0: Option<char> = None;
    let mut count: usize = 0;
    let mut k: usize = 0;
    while k < t.len()
        invariant
            k <= t.len(),
            count <= k,
            tb_scan(t@, k as int, ch0, count as nat) == tb_scan(t@, 0, None, 0),
        decreases t.len() - k,
    {
        let c = t[k];
        if c == ' ' || c == '\t' {
            k += 1;
            continue;
        }
        match ch0 {
            None => {
                if c != '-' && c != '_' && c != '*' {
                    return false;
                }
                ch0 = Some(c);
                count = 1;
            },
            Some(m) => {
                if c != m {
                    return false;
                }
                count += 1;
            },
        }
        k += 1;
    }
    count >= 3
}

/// The character a thematic break repeats: its first non-blank one.
pub open spec fn spec_break_marker(s: Seq<char>, phase: int) -> char {
    match after_small(s, phase) {
        Some((t, _)) => {
            let k = crate::text::lead_end(t, 1, 0);
            if k < t.len() {
                t[k]
            } else {
                '-'
            }
        },
        None => '-',
    }
}

/// The character a thematic break repeats: its first non-blank one.
fn break_marker(line: &PLine) -> (r: char)
    ensures
        r == spec_break_marker(line.s@, line.phase as int),
{
    let t = match after_small_indent(line) {
        Some(t) => t.s,
        None => {
            return '-';
        },
    };
    let k = skip_class(&t, 1, 0);
    if k < t.len() {
        t[k]
    } else {
        '-'
    }
}

/// An ATX heading's text after the `#` run: trimmed, and without a
/// closing `#` run that follows a blank (or is all there is); whether one
/// was stripped.
pub open spec fn atx_content(rest: Seq<char>) -> (Seq<char>, bool) {
    let content = crate::text::spec_trim(rest, 0);
    let se = crate::text::spec_trim_end(content, 2);
    if content.len() > 0 && content.last() == '#' && se.len() < content.len() && (se.len() == 0
        || se.last() == ' ' || se.last() == '\t') {
        (crate::text::spec_trim_end(se, 0), true)
    } else {
        (content, false)
    }
}

/// ATX heading: up to 3 indent, 1-6 `#`, then a space, a tab or the end.
/// (level, content, whether a closing `#` run was stripped).
pub open spec fn spec_atx(s: Seq<char>, phase: int) -> Option<(u8, Seq<char>, bool)> {
    match after_small(s, phase) {
        None => None,
        Some((t, _)) => {
            let run = crate::inline_parser::ch_run(t, 0, '#');
            let level = if run > 6 {
                6
            } else {
                run
            };
            if level == 0 {
                None
            } else if level == t.len() {
                Some((level as u8, Seq::empty(), false))
            } else if t[level] != ' ' && t[level] != '\t' {
                None
            } else {
                let c = atx_content(t.skip(level));
                Some((level as u8, c.0, c.1))
            }
        },
    }
}

proof fn lemma_hash_run(t: Seq<char>, k: int, e: int)
    requires
        0 <= k <= e <= t.len(),
        forall|x: int| k <= x < e ==> #[trigger] t[x] == '#',
        e < t.len() ==> t[e] != '#',
    ensures
        crate::inline_parser::ch_run(t, k, '#') == e,
    decreases e - k,
{
    if k < e {
        lemma_hash_run(t, k + 1, e);
    }
}

/// Every heading level comes through: a line of one to six `#`, a space
/// and text that neither starts nor ends with a blank nor ends with `#`
/// is a heading of that many levels whose content is the text.
pub proof fn law_atx_level(n: nat, t: Seq<char>, phase: int)
    requires
        1 <= n <= 6,
        t.len() > 0,
        !crate::text::spec_is_whitespace(t[0]),
        !crate::text::spec_is_whitespace(t.last()),
        t.last() != '#',
    ensures
        spec_atx(Seq::new(n, |_i: int| '#') + seq![' '] + t, phase) == Some((n as u8, t, false)),
{
    let h = Seq::new(n, |_i: int| '#');
    let s = h + seq![' '] + t;
    assert(s[0] == '#');
    assert(ws_scan(s, phase, 0, 0) == (0int, 0int));
    assert(strip_scan(s, phase, 3, 0, 0) == (0int, 0int, 0int));
    assert(strip_view(s, phase, 3).0 =~= s);
    assert forall|x: int| 0 <= x < n implies #[trigger] s[x] == '#' by {
        assert(s[x] == h[x]);
    }
    assert(s[n as int] == ' ');
    lemma_hash_run(s, 0, n as int);
    let rest = s.skip(n as int);
    assert(rest =~= seq![' '] + t);
    assert forall|x: int| 0 <= x < seq![' '].len() implies crate::text::in_class(0, #[trigger] seq![' '][x]) by {
        assert(seq![' '][x] == ' ');
    }
    lemma_lead_end_prefix(seq![' '], t, 0, 0);
    assert(!crate::text::in_class(0, t[0]));
    assert(crate::text::lead_end(t, 0, 0) == 0);
    assert(crate::text::spec_trim_start(rest, 0) =~= t);
    assert(!crate::text::in_class(0, t[t.len() - 1]));
    assert(crate::text::trail_start(t, 0, t.len() as int) == t.len());
    assert(t.take(t.len() as int) =~= t);
    assert(crate::text::spec_trim(rest, 0) == t);
}

/// ATX heading: 1-6 `#`, then space/tab/end. Returns (level, content,
/// whether a closing `#` run was stripped).
fn parse_atx(line: &PLine) -> (r: Option<(u8, Vec<char>, bool)>)
    ensures
        r matches Some((level, _, _)) ==> 1 <= level <= 6,
        match r {
            Some((level, content, closing)) => spec_atx(line.s@, line.phase as int) == Some(
                (level, content@, closing),
            ),
            None => spec_atx(line.s@, line.phase as int) is None,
        },
{
    let t = match after_small_indent(line) {
        Some(t) => t.s,
        None => {
            return None;
        },
    };
    proof {
        crate::inline_parser::lemma_ch_run(t@, 0, '#');
    }
    let mut level: usize = 0;
    while level < t.len() && level < 6 && t[level] == '#'
        invariant
            level <= t.len(),
            level <= 6,
            level <= crate::inline_parser::ch_run(t@, 0, '#'),
            crate::inline_parser::ch_run(t@, level as int, '#') == crate::inline_parser::ch_run(t@, 0, '#'),
        decreases 6 - level,
    {
        proof {
            crate::inline_parser::lemma_ch_run(t@, level + 1, '#');
        }
        level += 1;
    }
    if level == 0 {
        return None;
    }
    if level == t.len() {
        return Some((level as u8, Vec::new(), false));
    }
    let c = t[level];
    if c != ' ' && c != '\t' {
        return None;
    }
    let rest = slice(&t, level, t.len());
    assert(rest@ =~= t@.skip(level as int));
    let mut content = trim(&rest);
    let mut closing = false;
    let cl = content.len();
    if cl > 0 && content[cl - 1] == '#' {
        let stripped_end = trim_end_class(&content, 2);
        let sl = stripped_end.len();
        let before_ok = sl == 0 || stripped_end[sl - 1] == ' ' || stripped_end[sl - 1] == '\t';
        if sl < cl && before_ok {
            content = trim_end_class(&stripped_end, 0);
            closing = true;
        }
    }
    Some((level as u8, content, closing))
}

/// Setext underline: up to 3 indent, then (trimmed) a non-empty run of
/// only `=` (level 1) or only `-` (level 2).
pub open spec fn spec_setext(s: Seq<char>, phase: int) -> Option<u8> {
    match after_small(s, phase) {
        None => None,
        Some((t0, _)) => {
            let t = crate::text::spec_trim(t0, 0);
            if t.len() == 0 || (t[0] != '=' && t[0] != '-') || crate::inline_parser::ch_run(t, 0, t[0])
                != t.len() {
                None
            } else if t[0] == '=' {
                Some(1)
            } else {
                Some(2)
            }
        },
    }
}

/// Setext underline: all `=` gives 1, all `-` gives 2. Interior spaces are
/// not allowed.
fn parse_setext(line: &PLine) -> (r: Option<u8>)
    ensures
        r matches Some(l) ==> l == 1 || l == 2,
        r == spec_setext(line.s@, line.phase as int),
{
    let t0 = match after_small_indent(line) {
        Some(t) => t.s,
        None => {
            return None;
        },
    };
    let t = trim(&t0);
    if t.len() == 0 {
        return None;
    }
    let c = t[0];
    if c != '=' && c != '-' {
        return None;
    }
    if run_len(&t, 0, c) != t.len() {
        return None;
    }
    Some(if c == '=' {
        1
    } else {
        2
    })
}

/// Fenced code open: up to 3 indent, 3+ backticks or tildes, then an info
/// string (trimmed; with backticks it may hold none): (fence char,
/// fence length, info).
pub open spec fn spec_fence_open(s: Seq<char>, phase: int) -> Option<(char, usize, Seq<char>)> {
    match after_small(s, phase) {
        None => None,
        Some((t, _)) => if t.len() == 0 || (t[0] != '`' && t[0] != '~') {
            None
        } else {
            let len = crate::inline_parser::ch_run(t, 0, t[0]);
            let info = crate::text::spec_trim(t.skip(len), 0);
            if len < 3 || (t[0] == '`' && info.contains('`')) {
                None
            } else {
                Some((t[0], len as usize, info))
            }
        },
    }
}

/// Fenced code open: up to 3 indent, 3+ backticks or tildes. Returns
/// (fence char, fence length, info string).
#[verifier::spinoff_prover]
#[verifier::rlimit(60)]
fn parse_fence_open(line: &PLine) -> (r: Option<(char, usize, Vec<char>)>)
    ensures
        r matches Some((fc, len, _)) ==> (fc == '`' || fc == '~') && len >= 3,
        match r {
            Some((fc, len, info)) => spec_fence_open(line.s@, line.phase as int) == Some((fc, len, info@)),
            None => spec_fence_open(line.s@, line.phase as int) is None,
        },
{
    let t = match after_small_indent(line) {
        Some(t) => t.s,
        None => {
            return None;
        },
    };
    if t.len() == 0 {
        return None;
    }
    let fc = t[0];
    if fc != '`' && fc != '~' {
        return None;
    }
    let len = run_len(&t, 0, fc);
    if len < 3 {
        return None;
    }
    let tail = slice(&t, len, t.len());
    assert(tail@ =~= t@.skip(len as int));
    let info = trim(&tail);
    if fc == '`' {
        let mut k: usize = 0;
        while k < info.len()
            invariant
                k <= info.len(),
                forall|j: int| 0 <= j < k ==> info@[j] != '`',
            decreases info.len() - k,
        {
            if info[k] == '`' {
                assert(info@.contains('`'));
                return None;
            }
            k += 1;
        }
    }
    Some((fc, len, info))
}

/// Closing fence: up to 3 indent, `need` or more of the fence char, then
/// only spaces and tabs.
pub open spec fn spec_fence_close(s: Seq<char>, phase: int, fc: char, need: int) -> bool {
    match after_small(s, phase) {
        None => false,
        Some((t, _)) => {
            let len = crate::inline_parser::ch_run(t, 0, fc);
            len >= need && crate::text::lead_end(t, 1, len) == t.len()
        },
    }
}

/// Closing fence: up to 3 indent, 3+ of the fence char, then only
/// spaces/tabs.
fn parse_fence_close(line: &PLine, fc: char, need: usize) -> (r: bool)
    ensures
        r == spec_fence_close(line.s@, line.phase as int, fc, need as int),
{
    let t = match after_small_indent(line) {
        Some(t) => t.s,
        None => {
            return false;
        },
    };
    let len = run_len(&t, 0, fc);
    if len < need {
        return false;
    }
    let k = skip_class(&t, 1, len);
    k == t.len()
}

/// Blockquote marker: up to 3 indent, `>`, then an optional space (taken)
/// or tab (kept in the text, one column taken): the rest and its phase.
pub open spec fn spec_bq_marker(s: Seq<char>, phase: int) -> Option<(Seq<char>, int)> {
    match after_small(s, phase) {
        None => None,
        Some((t, tp)) => if t.len() == 0 || t[0] != '>' {
            None
        } else {
            let rest = t.skip(1);
            let cphase = (tp + 1) % 4;
            if rest.len() == 0 {
                Some((Seq::empty(), cphase))
            } else if rest[0] == ' ' {
                Some((rest.skip(1), (cphase + 1) % 4))
            } else if rest[0] == '\t' {
                Some((rest, (cphase + 1) % 4))
            } else {
                Some((rest, cphase))
            }
        },
    }
}

/// Blockquote marker: up to 3 indent, `>`, optional single space/tab.
/// Returns the rest with an exact column: a tab after `>` is only
/// partially consumed (the text keeps it, the phase advances by 1).
fn parse_blockquote_marker(line: &PLine) -> (r: Option<PLine>)
    ensures
        r matches Some(l) ==> l.phase < 4 && !l.lazy,
        match r {
            Some(l) => spec_bq_marker(line.s@, line.phase as int) == Some((l.s@, l.phase as int)),
            None => spec_bq_marker(line.s@, line.phase as int) is None,
        },
{
    let t = match after_small_indent(line) {
        Some(t) => t,
        None => {
            return None;
        },
    };
    if t.s.len() == 0 || t.s[0] != '>' {
        return None;
    }
    let rest = slice(&t.s, 1, t.s.len());
    assert(rest@ =~= t.s@.skip(1));
    let cphase = (t.phase + 1) % 4;
    if rest.len() == 0 {
        return Some(PLine { s: Vec::new(), phase: cphase, lazy: false });
    }
    if rest[0] == ' ' {
        let r2 = slice(&rest, 1, rest.len());
        assert(r2@ =~= rest@.skip(1));
        return Some(PLine { s: r2, phase: (cphase + 1) % 4, lazy: false });
    }
    if rest[0] == '\t' {
        return Some(PLine { s: rest, phase: (cphase + 1) % 4, lazy: false });
    }
    Some(PLine { s: rest, phase: cphase, lazy: false })
}

// ---------------------------------------------------------------------------
// HTML blocks (CommonMark types 1-7)
// ---------------------------------------------------------------------------

/// Block-level tag names of HTML block type 6.
pub open spec fn spec_block_tag(name: Seq<char>) -> bool {
    name == "address"@ || name == "article"@ || name == "aside"@ || name == "base"@ || name == "basefont"@ || name == "blockquote"@ || name == "body"@ || name == "caption"@ || name == "center"@ || name == "col"@ || name == "colgroup"@ || name == "dd"@ || name == "details"@ || name == "dialog"@ || name == "dir"@ || name == "div"@ || name == "dl"@ || name == "dt"@ || name == "fieldset"@ || name == "figcaption"@ || name == "figure"@ || name == "footer"@ || name == "form"@ || name == "frame"@ || name == "frameset"@ || name == "h1"@ || name == "h2"@ || name == "h3"@ || name == "h4"@ || name == "h5"@ || name == "h6"@ || name == "head"@ || name == "header"@ || name == "hr"@ || name == "html"@ || name == "iframe"@ || name == "legend"@ || name == "li"@ || name == "link"@ || name == "main"@ || name == "menu"@ || name == "menuitem"@ || name == "nav"@ || name == "noframes"@ || name == "ol"@ || name == "optgroup"@ || name == "option"@ || name == "p"@ || name == "param"@ || name == "search"@ || name == "section"@ || name == "summary"@ || name == "table"@ || name == "tbody"@ || name == "td"@ || name == "tfoot"@ || name == "th"@ || name == "thead"@ || name == "title"@ || name == "tr"@ || name == "track"@ || name == "ul"@
}

/// Block-level tag names of HTML block type 6.
fn is_block_tag(name: &Vec<char>) -> (r: bool)
    ensures
        r == spec_block_tag(name@),
{
    eq_str(name, "address") || eq_str(name, "article") || eq_str(name, "aside") || eq_str(name, "base") || eq_str(name, "basefont") || eq_str(name, "blockquote") || eq_str(name, "body") || eq_str(name, "caption") || eq_str(name, "center") || eq_str(name, "col") || eq_str(name, "colgroup") || eq_str(name, "dd") || eq_str(name, "details") || eq_str(name, "dialog") || eq_str(name, "dir") || eq_str(name, "div") || eq_str(name, "dl") || eq_str(name, "dt") || eq_str(name, "fieldset") || eq_str(name, "figcaption") || eq_str(name, "figure") || eq_str(name, "footer") || eq_str(name, "form") || eq_str(name, "frame") || eq_str(name, "frameset") || eq_str(name, "h1") || eq_str(name, "h2") || eq_str(name, "h3") || eq_str(name, "h4") || eq_str(name, "h5") || eq_str(name, "h6") || eq_str(name, "head") || eq_str(name, "header") || eq_str(name, "hr") || eq_str(name, "html") || eq_str(name, "iframe") || eq_str(name, "legend") || eq_str(name, "li") || eq_str(name, "link") || eq_str(name, "main") || eq_str(name, "menu") || eq_str(name, "menuitem") || eq_str(name, "nav") || eq_str(name, "noframes") || eq_str(name, "ol") || eq_str(name, "optgroup") || eq_str(name, "option") || eq_str(name, "p") || eq_str(name, "param") || eq_str(name, "search") || eq_str(name, "section") || eq_str(name, "summary") || eq_str(name, "table") || eq_str(name, "tbody") || eq_str(name, "td") || eq_str(name, "tfoot") || eq_str(name, "th") || eq_str(name, "thead") || eq_str(name, "title") || eq_str(name, "tr") || eq_str(name, "track") || eq_str(name, "ul")
}

/// A tag name right after `<` at `from`: an optional `/`, then ASCII
/// letters, digits and `-`: (closing, the name lowercased).
pub open spec fn spec_tag_name_at(s: Seq<char>, from: int) -> Option<(bool, Seq<char>)> {
    let closing = from < s.len() && s[from] == '/';
    let start = if closing {
        from + 1
    } else {
        from
    };
    let k = crate::inline_parser::tag_run_end(s, start, 1, ' ');
    if k == start {
        None
    } else {
        Some((closing, crate::text::spec_lower_ascii_seq(s.subrange(start, k))))
    }
}

/// Tag name right after `<` (at `from`): (closing, lowercase name).
fn tag_name_at(s: &Vec<char>, from: usize) -> (r: Option<(bool, Vec<char>)>)
    requires
        from <= s.len(),
    ensures
        r matches Some((_, name)) ==> name@.len() > 0,
        match r {
            Some((c, name)) => spec_tag_name_at(s@, from as int) == Some((c, name@)),
            None => spec_tag_name_at(s@, from as int) is None,
        },
{
    let mut k = from;
    let closing = if k < s.len() && s[k] == '/' {
        k += 1;
        true
    } else {
        false
    };
    let start = k;
    proof {
        crate::inline_parser::lemma_tag_run_end(s@, start as int, 1, ' ');
    }
    while k < s.len() && (is_ascii_alnum(s[k]) || s[k] == '-')
        invariant
            start <= k <= s.len(),
            crate::inline_parser::tag_run_end(s@, k as int, 1, ' ') == crate::inline_parser::tag_run_end(s@, start as int, 1, ' '),
        decreases s.len() - k,
    {
        k += 1;
    }
    if k == start {
        return None;
    }
    let name = slice(s, start, k);
    Some((closing, lower_ascii_vec(&name)))
}

/// A character that may follow a type 1/6 tag name (or the line's end).
pub open spec fn spec_tag_name_end_ok(s: Seq<char>, k: int) -> bool {
    k >= s.len() || s[k] == ' ' || s[k] == '\t' || s[k] == '\n' || s[k] == '>' || s[k] == '/'
}

/// A character that may follow a type 1/6 tag name.
fn tag_name_end_ok(s: &Vec<char>, k: usize) -> (r: bool)
    ensures
        r == spec_tag_name_end_ok(s@, k as int),
{
    if k >= s.len() {
        return true;
    }
    let c = s[k];
    c == ' ' || c == '\t' || c == '\n' || c == '>' || c == '/'
}

/// Type 1 start: `<pre`, `<script`, `<style` or `<textarea` (any case)
/// followed by a blank, `>`, `/` or the end.
pub open spec fn html_type1(t: Seq<char>) -> bool {
    let low = crate::text::spec_lower_ascii_seq(t);
    !matches_at(t, 1, "/"@) && ((matches_at(low, 1, "pre"@) && spec_tag_name_end_ok(low, 4)) || (
    matches_at(low, 1, "script"@) && spec_tag_name_end_ok(low, 7)) || (matches_at(low, 1, "style"@)
        && spec_tag_name_end_ok(low, 6)) || (matches_at(low, 1, "textarea"@) && spec_tag_name_end_ok(
        low,
        9,
    )))
}

/// Type 6 start: the block tag name `name` is followed by a blank, `>`,
/// `/` or the end.
pub open spec fn html_type6_end(t: Seq<char>, name: Seq<char>) -> bool {
    let skip: int = if matches_at(t, 1, "/"@) {
        1
    } else {
        0
    };
    let nl = name.len() as int;
    if nl < t.len() && skip <= t.len() - 1 - nl {
        spec_tag_name_end_ok(t, 1 + skip + nl)
    } else {
        true
    }
}

/// The HTML block type (1-7) a line starts, after up to 3 columns of
/// indent: 2 comment, 3 processing instruction, 4 declaration, 5 CDATA,
/// 1 raw-text element, 6 block-level tag, 7 any complete tag alone on the
/// line (not inside a paragraph).
pub open spec fn spec_html_block_start(s: Seq<char>, phase: int, in_paragraph: bool) -> Option<u8> {
    match after_small(s, phase) {
        None => None,
        Some((t, _)) => if t.len() == 0 || t[0] != '<' {
            None
        } else if matches_at(t, 1, "!--"@) {
            Some(2)
        } else if matches_at(t, 1, "?"@) {
            Some(3)
        } else if matches_at(t, 1, "!"@) {
            if t.len() < 3 {
                None
            } else if spec_ascii_alpha(t[2]) {
                Some(4)
            } else if matches_at(t, 1, "![CDATA["@) {
                Some(5)
            } else {
                None
            }
        } else if html_type1(t) {
            Some(1)
        } else {
            match spec_tag_name_at(t, 1) {
                None => None,
                Some((_, name)) => if spec_block_tag(name) && html_type6_end(t, name) {
                    Some(6)
                } else if !in_paragraph && spec_complete_tag_line(t) {
                    Some(7)
                } else {
                    None
                },
            }
        },
    }
}

/// Detect an HTML block start; returns its type (1-7). `in_paragraph`
/// gates type 7, which cannot interrupt a paragraph.
fn html_block_start(line: &PLine, in_paragraph: bool) -> (r: Option<u8>)
    ensures
        r matches Some(t) ==> 1 <= t <= 7,
        r == spec_html_block_start(line.s@, line.phase as int, in_paragraph),
{
    let t = match after_small_indent(line) {
        Some(t) => t.s,
        None => {
            return None;
        },
    };
    if t.len() == 0 || t[0] != '<' {
        return None;
    }
    if starts_with_at(&t, 1, "!--") {
        return Some(2);
    }
    if starts_with_at(&t, 1, "?") {
        return Some(3);
    }
    if starts_with_at(&t, 1, "!") {
        if t.len() < 3 {
            return None;
        }
        if is_ascii_alpha(t[2]) {
            return Some(4);
        }
        if starts_with_at(&t, 1, "![CDATA[") {
            return Some(5);
        }
        return None;
    }
    if !starts_with_at(&t, 1, "/") {
        let low = lower_ascii_vec(&t);
        if starts_with_at(&low, 1, "pre") && tag_name_end_ok(&low, 4) {
            return Some(1);
        }
        if starts_with_at(&low, 1, "script") && tag_name_end_ok(&low, 7) {
            return Some(1);
        }
        if starts_with_at(&low, 1, "style") && tag_name_end_ok(&low, 6) {
            return Some(1);
        }
        if starts_with_at(&low, 1, "textarea") && tag_name_end_ok(&low, 9) {
            return Some(1);
        }
    }
    let (closing, name) = match tag_name_at(&t, 1) {
        Some(p) => p,
        None => {
            return None;
        },
    };
    if is_block_tag(&name) {
        let skip: usize = if starts_with_at(&t, 1, "/") {
            1
        } else {
            0
        };
        let nl = name.len();
        if nl < t.len() && skip <= t.len() - 1 - nl {
            if tag_name_end_ok(&t, 1 + skip + nl) {
                return Some(6);
            }
        } else {
            return Some(6);
        }
    }
    if !in_paragraph && is_complete_tag_line(&t) {
        return Some(7);
    }
    None
}

/// Type 7: one complete tag by the strict grammar, then only spaces and
/// tabs.
pub open spec fn spec_complete_tag_line(t: Seq<char>) -> bool {
    match crate::inline_parser::spec_tag_end_at(t, 0) {
        Some(e) => crate::text::lead_end(t, 1, e) == t.len(),
        None => false,
    }
}

/// Type 7: the line is one complete tag (plus trailing spaces/tabs), by
/// the strict CommonMark tag grammar.
fn is_complete_tag_line(t: &Vec<char>) -> (r: bool)
    ensures
        r == spec_complete_tag_line(t@),
{
    match tag_end_at(t, 0) {
        Some(len) => skip_class(t, 1, len) == t.len(),
        None => false,
    }
}

fn contains_str(s: &Vec<char>, p: &str) -> (r: bool)
    requires
        p@.len() > 0,
    ensures
        r == exists|q: int| #[trigger] crate::text::matches_at(s@, q, p@),
{
    match find_from(s, 0, p) {
        Some(q) => true,
        None => {
            assert forall|q: int| !#[trigger] crate::text::matches_at(s@, q, p@) by {
                if q < 0 {
                }
            }
            false
        },
    }
}

/// `p` occurs somewhere in `s`.
pub open spec fn occurs(s: Seq<char>, p: Seq<char>) -> bool {
    exists|q: int| #[trigger] crate::text::matches_at(s, q, p)
}

/// End condition of HTML block types 1-5 on a line: a closing `pre`,
/// `script`, `style` or `textarea` tag (any case), `-->`, `?>`, `>`,
/// `]]>`.
pub open spec fn spec_html_block_end(line: Seq<char>, htype: u8) -> bool {
    let low = crate::text::spec_lower_ascii_seq(line);
    if htype == 1 {
        occurs(low, "</pre"@) || occurs(low, "</script"@) || occurs(low, "</style"@) || occurs(
            low,
            "</textarea"@,
        )
    } else if htype == 2 {
        occurs(line, "-->"@)
    } else if htype == 3 {
        occurs(line, "?>"@)
    } else if htype == 4 {
        occurs(line, ">"@)
    } else if htype == 5 {
        occurs(line, "]]>"@)
    } else {
        false
    }
}

/// End condition of HTML block types 1-5 on a line.
fn html_block_end(line: &Vec<char>, htype: u8) -> (r: bool)
    ensures
        r == spec_html_block_end(line@, htype),
{
    let low = lower_ascii_vec(line);
    proof {
        reveal_strlit("</pre");
        reveal_strlit("</script");
        reveal_strlit("</style");
        reveal_strlit("</textarea");
        reveal_strlit("-->");
        reveal_strlit("?>");
        reveal_strlit(">");
        reveal_strlit("]]>");
    }
    if htype == 1 {
        contains_str(&low, "</pre") || contains_str(&low, "</script") || contains_str(
            &low,
            "</style",
        ) || contains_str(&low, "</textarea")
    } else if htype == 2 {
        contains_str(line, "-->")
    } else if htype == 3 {
        contains_str(line, "?>")
    } else if htype == 4 {
        contains_str(line, ">")
    } else if htype == 5 {
        contains_str(line, "]]>")
    } else {
        false
    }
}

// ---------------------------------------------------------------------------
// Lists
// ---------------------------------------------------------------------------

pub struct ListMarker {
    pub ordered: bool,
    pub bullet: char,
    pub number: u32,
    pub delim: char,
    pub content_indent: usize,
    pub empty: bool,
}

/// Content indent after a marker of width `mw` followed by the whitespace
/// run `ws`, relative to the marker start (1-4 spaces / 5+ spaces / tab
/// rule). `mphase` is the tab phase at the marker.
pub open spec fn mci_scan(ws: Seq<char>, mphase: int, mw: int, k: int, spaces: int) -> int
    decreases ws.len() - k,
{
    if k < 0 || k >= ws.len() || (ws[k] != ' ' && ws[k] != '\t') {
        if spaces == 0 {
            sat(mw + 1)
        } else if spaces <= 4 {
            sat(mw + spaces)
        } else {
            sat(mw + 1)
        }
    } else if ws[k] == ' ' {
        mci_scan(ws, mphase, mw, k + 1, spaces + 1)
    } else {
        let rel = sat(mw + spaces);
        sat(rel + 4 - sat(mphase + rel) % 4)
    }
}

fn marker_content_indent(mphase: usize, mw: usize, ws: &Vec<char>) -> (r: usize)
    ensures
        r as int == mci_scan(ws@, mphase as int, mw as int, 0, 0),
{
    let mut spaces: usize = 0;
    let mut k: usize = 0;
    while k < ws.len()
        invariant
            k <= ws.len(),
            spaces <= k,
            mci_scan(ws@, mphase as int, mw as int, k as int, spaces as int) == mci_scan(ws@, mphase as int, mw as int, 0, 0),
        decreases ws.len() - k,
    {
        let c = ws[k];
        if c == ' ' {
            spaces += 1;
        } else if c == '\t' {
            let rel = mw.saturating_add(spaces);
            return rel.saturating_add(4 - (mphase.saturating_add(rel) % 4));
        } else {
            break;
        }
        k += 1;
    }
    if spaces == 0 {
        return mw.saturating_add(1);
    }
    if spaces <= 4 {
        return mw.saturating_add(spaces);
    }
    mw.saturating_add(1)
}

/// Powers of ten up to 10^9.
spec fn p10(q: int) -> int {
    if q <= 0 {
        1
    } else if q == 1 {
        10
    } else if q == 2 {
        100
    } else if q == 3 {
        1000
    } else if q == 4 {
        10000
    } else if q == 5 {
        100000
    } else if q == 6 {
        1000000
    } else if q == 7 {
        10000000
    } else if q == 8 {
        100000000
    } else {
        1000000000
    }
}

proof fn lemma_spaces_scan(s: Seq<char>, phase: int, k: int, j: int)
    requires
        0 <= j <= k < s.len(),
        k <= 3,
        forall|x: int| 0 <= x < k ==> s[x] == ' ',
        s[k] != ' ' && s[k] != '\t',
    ensures
        ws_scan(s, phase, j, j) == (k, k),
        strip_scan(s, phase, 3, j, j) == (k, k, 0int),
    decreases k - j,
{
    if j < k {
        lemma_spaces_scan(s, phase, k, j + 1);
    }
}

proof fn lemma_lead_end_shift(p: Seq<char>, t: Seq<char>, cls: u8, j: int)
    requires
        forall|x: int| 0 <= x < p.len() ==> crate::text::in_class(cls, #[trigger] p[x]),
        0 <= j <= t.len(),
    ensures
        crate::text::lead_end(p + t, cls, p.len() + j) == p.len() + crate::text::lead_end(t, cls, j),
    decreases t.len() - j,
{
    if j < t.len() {
        assert((p + t)[p.len() + j] == t[j]);
        lemma_lead_end_shift(p, t, cls, j + 1);
    }
}

proof fn lemma_lead_end_prefix(p: Seq<char>, t: Seq<char>, cls: u8, j: int)
    requires
        forall|x: int| 0 <= x < p.len() ==> crate::text::in_class(cls, #[trigger] p[x]),
        0 <= j <= p.len(),
    ensures
        crate::text::lead_end(p + t, cls, j) == p.len() + crate::text::lead_end(t, cls, 0),
    decreases p.len() - j,
{
    if j < p.len() {
        assert((p + t)[j] == p[j]);
        lemma_lead_end_prefix(p, t, cls, j + 1);
    } else {
        lemma_lead_end_shift(p, t, cls, 0);
    }
}

/// A bullet item opens on every line made of up to three spaces, one of
/// `-`, `+`, `*`, a space and non-blank text: the marker is unordered,
/// carries that bullet, the item is not empty, and where the text starts
/// right after the space, the content starts there too.
pub proof fn law_bullet_marker(k: nat, bullet: char, t: Seq<char>, phase: int)
    requires
        k <= 3,
        bullet == '-' || bullet == '+' || bullet == '*',
        crate::text::spec_trim(t, 0).len() > 0,
    ensures
        spec_list_marker(Seq::new(k, |_i: int| ' ') + seq![bullet, ' '] + t, phase) matches Some(
            (ordered, b, _, _, ci, empty),
        ) && !ordered && b == bullet && !empty && (t[0] != ' ' && t[0] != '\t' ==> ci == k + 2),
{
    let sp = Seq::new(k, |_i: int| ' ');
    let s = sp + seq![bullet, ' '] + t;
    assert(s[k as int] == bullet);
    assert forall|x: int| 0 <= x < k implies s[x] == ' ' by {
        assert(s[x] == sp[x]);
    }
    lemma_spaces_scan(s, phase, k as int, 0);
    let tt = strip_view(s, phase, 3).0;
    assert(tt =~= seq![bullet, ' '] + t);
    let rest = tt.skip(1);
    assert(rest =~= seq![' '] + t);
    assert(crate::text::in_class(0, ' '));
    assert forall|x: int| 0 <= x < seq![' '].len() implies crate::text::in_class(0, #[trigger] seq![' '][x]) by {
        assert(seq![' '][x] == ' ');
    }
    lemma_lead_end_prefix(seq![' '], t, 0, 0);
    crate::text::lemma_lead_end_bounds(t, 0, 0);
    assert(rest == seq![' '] + t);
    assert(crate::text::spec_trim_start(rest, 0) =~= crate::text::spec_trim_start(t, 0));
    assert(t.len() > 0);
    if t[0] != ' ' && t[0] != '\t' {
        assert(rest[1] == t[0]);
        let mphase = sat(phase + k) % 4;
        assert(mci_scan(rest, mphase, 1, 1, 1) == 2);
        assert(mci_scan(rest, mphase, 1, 0, 0) == 2);
    }
}

proof fn lemma_decimal_digits(n: nat)
    ensures
        1 <= crate::text::spec_decimal(n).len(),
        n < 1000000000 ==> crate::text::spec_decimal(n).len() <= 9,
        n < 100000000 ==> crate::text::spec_decimal(n).len() <= 8,
        n < 10000000 ==> crate::text::spec_decimal(n).len() <= 7,
        n < 1000000 ==> crate::text::spec_decimal(n).len() <= 6,
        n < 100000 ==> crate::text::spec_decimal(n).len() <= 5,
        n < 10000 ==> crate::text::spec_decimal(n).len() <= 4,
        n < 1000 ==> crate::text::spec_decimal(n).len() <= 3,
        n < 100 ==> crate::text::spec_decimal(n).len() <= 2,
        forall|k: int|
            0 <= k < crate::text::spec_decimal(n).len() ==> crate::text::spec_ascii_digit(
                #[trigger] crate::text::spec_decimal(n)[k],
            ),
        crate::html_to_markdown::digits_value(
            crate::text::spec_decimal(n),
            crate::text::spec_decimal(n).len() as int,
            0,
        ) == n,
    decreases n,
{
    let d = crate::text::spec_decimal(n);
    if n < 10 {
        assert(d.len() == 1);
        assert(crate::html_to_markdown::digits_value(d, 0, 0) == 0);
    } else {
        let q = n / 10;
        let r = n % 10;
        lemma_decimal_digits(q);
        let dq = crate::text::spec_decimal(q);
        assert(d == dq + seq![((r + 48) as u32) as char]);
        assert forall|k: int| 0 <= k < d.len() implies crate::text::spec_ascii_digit(#[trigger] d[k]) by {
            if k < dq.len() {
                assert(d[k] == dq[k]);
            }
        }
        lemma_digits_value_prefix(d, dq, dq.len() as int);
        assert(n == q * 10 + r);
    }
}

proof fn lemma_digits_value_prefix(v: Seq<char>, w: Seq<char>, to: int)
    requires
        0 <= to <= w.len(),
        to <= v.len(),
        forall|x: int| 0 <= x < to ==> v[x] == w[x],
    ensures
        crate::html_to_markdown::digits_value(v, to, 0) == crate::html_to_markdown::digits_value(w, to, 0),
    decreases to,
{
    if to > 0 {
        lemma_digits_value_prefix(v, w, to - 1);
    }
}

proof fn lemma_digit_run_to(t: Seq<char>, k: int, e: int)
    requires
        0 <= k <= e < t.len(),
        forall|x: int| k <= x < e ==> crate::text::spec_ascii_digit(#[trigger] t[x]),
        !crate::text::spec_ascii_digit(t[e]),
    ensures
        digit_run(t, k) == e,
    decreases e - k,
{
    if k < e {
        lemma_digit_run_to(t, k + 1, e);
    }
}

/// An ordered item opens on every line made of up to three spaces, a
/// number of at most nine digits, `.` or `)`, a space and non-blank
/// text: the marker is ordered, carries that number and delimiter, the
/// item is not empty, and where the text starts right after the space,
/// the content starts there too.
pub proof fn law_ordered_marker(k: nat, number: nat, delim: char, t: Seq<char>, phase: int)
    requires
        k <= 3,
        number < 1000000000,
        delim == '.' || delim == ')',
        crate::text::spec_trim(t, 0).len() > 0,
    ensures
        spec_list_marker(
            Seq::new(k, |_i: int| ' ') + crate::text::spec_decimal(number) + seq![delim, ' '] + t,
            phase,
        ) matches Some((ordered, _, num, dl, ci, empty)) && ordered && num == number && dl == delim && !empty && (
        t[0] != ' ' && t[0] != '\t' ==> ci == k + crate::text::spec_decimal(number).len() + 2),
{
    let sp = Seq::new(k, |_i: int| ' ');
    let dd = crate::text::spec_decimal(number);
    lemma_decimal_digits(number);
    let nd = dd.len() as int;
    let s = sp + dd + seq![delim, ' '] + t;
    assert(s[k as int] == dd[0]);
    assert(crate::text::spec_ascii_digit(dd[0]));
    assert forall|x: int| 0 <= x < k implies s[x] == ' ' by {
        assert(s[x] == sp[x]);
    }
    lemma_spaces_scan(s, phase, k as int, 0);
    let tt = strip_view(s, phase, 3).0;
    assert(tt =~= dd + seq![delim, ' '] + t);
    assert(tt[0] == dd[0]);
    assert(!(tt[0] == '-' || tt[0] == '+' || tt[0] == '*'));
    assert(tt[nd] == delim);
    assert(tt[nd + 1] == ' ');
    assert forall|x: int| 0 <= x < nd implies crate::text::spec_ascii_digit(#[trigger] tt[x]) by {
        assert(tt[x] == dd[x]);
    }
    lemma_digit_run_to(tt, 0, nd);
    lemma_digits_value_prefix(tt, dd, nd);
    let rest = tt.skip(nd + 1);
    assert(rest =~= seq![' '] + t);
    assert forall|x: int| 0 <= x < seq![' '].len() implies crate::text::in_class(0, #[trigger] seq![' '][x]) by {
        assert(seq![' '][x] == ' ');
    }
    lemma_lead_end_prefix(seq![' '], t, 0, 0);
    crate::text::lemma_lead_end_bounds(t, 0, 0);
    assert(rest == seq![' '] + t);
    assert(crate::text::spec_trim_start(rest, 0) =~= crate::text::spec_trim_start(t, 0));
    assert(t.len() > 0);
    if t[0] != ' ' && t[0] != '\t' {
        assert(rest[1] == t[0]);
        let mphase = sat(phase + k) % 4;
        assert(mci_scan(rest, mphase, nd + 1, 1, 1) == nd + 2);
        assert(mci_scan(rest, mphase, nd + 1, 0, 0) == nd + 2);
    }
}

proof fn lemma_ws_scan_grows(s: Seq<char>, phase: int, j: int, c: int)
    requires
        0 <= c <= usize::MAX,
    ensures
        ws_scan(s, phase, j, c).1 >= c,
    decreases s.len() - j,
{
    if 0 <= j < s.len() {
        if s[j] == ' ' {
            lemma_ws_scan_grows(s, phase, j + 1, sat(c + 1));
        } else if s[j] == '\t' {
            lemma_ws_scan_grows(s, phase, j + 1, sat(c + 4 - sat(phase + c) % 4));
        }
    }
}

proof fn lemma_ws_scan_spaces(s: Seq<char>, phase: int, j: int, k: int)
    requires
        0 <= j <= k <= s.len(),
        k <= 4,
        forall|x: int| 0 <= x < k ==> s[x] == ' ',
    ensures
        ws_scan(s, phase, j, j) == ws_scan(s, phase, k, k),
    decreases k - j,
{
    if j < k {
        lemma_ws_scan_spaces(s, phase, j + 1, k);
    }
}

/// Four columns of indent open no list item: a line that starts with four
/// spaces is no list marker, whatever follows.
pub proof fn law_indented_no_marker(rest: Seq<char>, phase: int)
    ensures
        spec_list_marker(seq![' ', ' ', ' ', ' '] + rest, phase) is None,
{
    let s = seq![' ', ' ', ' ', ' '] + rest;
    assert forall|x: int| 0 <= x < 4 implies s[x] == ' ' by {}
    lemma_ws_scan_spaces(s, phase, 0, 4);
    lemma_ws_scan_grows(s, phase, 4, 4);
}

/// A bullet alone on its line, after up to three spaces, opens an empty
/// item whose content starts two columns past the bullet's start.
pub proof fn law_bullet_alone(k: nat, bullet: char, phase: int)
    requires
        k <= 3,
        bullet == '-' || bullet == '+' || bullet == '*',
    ensures
        spec_list_marker(Seq::new(k, |_i: int| ' ') + seq![bullet], phase) == Some(
            (false, bullet, 0u32, '\0', k as int + 2, true),
        ),
{
    let sp = Seq::new(k, |_i: int| ' ');
    let s = sp + seq![bullet];
    assert(s[k as int] == bullet);
    assert forall|x: int| 0 <= x < k implies s[x] == ' ' by {
        assert(s[x] == sp[x]);
    }
    lemma_spaces_scan(s, phase, k as int, 0);
    assert(strip_view(s, phase, 3).0 =~= seq![bullet]);
}

fn bullet_marker(ordered: bool, bullet: char, number: u32, delim: char, ci: usize, empty: bool) -> (m: ListMarker)
    ensures
        m.ordered == ordered,
        m.bullet == bullet,
        m.number == number,
        m.delim == delim,
        m.content_indent == ci,
        m.empty == empty,
{
    ListMarker { ordered, bullet, number, delim, content_indent: ci, empty }
}

/// End of the run of ASCII digits of `t` from `k`.
pub open spec fn digit_run(t: Seq<char>, k: int) -> int
    decreases t.len() - k,
{
    if k < 0 || k >= t.len() || !crate::text::spec_ascii_digit(t[k]) {
        k
    } else {
        digit_run(t, k + 1)
    }
}

/// A list item marker: up to 3 columns of indent, then a bullet `-`, `+`,
/// `*` or 1 to 9 digits with `.` or `)`, then a blank or the end of the
/// line: (ordered, bullet, number, delimiter, content indent, whether the
/// item starts empty). The content indent counts from the line's start:
/// the marker's columns plus 1 to 4 spaces (1 when more, or when none), or
/// up to the next tab stop.
pub open spec fn spec_list_marker(s: Seq<char>, phase: int) -> Option<(bool, char, u32, char, int, bool)> {
    let mrel = ws_scan(s, phase, 0, 0).1;
    let t = strip_view(s, phase, 3).0;
    let mphase = sat(phase + mrel) % 4;
    if mrel > 3 || t.len() == 0 {
        None
    } else if t[0] == '-' || t[0] == '+' || t[0] == '*' {
        if t.len() == 1 {
            Some((false, t[0], 0u32, '\0', sat(mrel + 2), true))
        } else if t[1] == ' ' || t[1] == '\t' {
            let rest = t.skip(1);
            if crate::text::spec_trim(rest, 0).len() == 0 {
                Some((false, t[0], 0u32, '\0', sat(mrel + 2), true))
            } else {
                Some((false, t[0], 0u32, '\0', sat(mrel + mci_scan(rest, mphase, 1, 0, 0)), false))
            }
        } else {
            None
        }
    } else {
        let k = digit_run(t, 0);
        if k == 0 || k > 9 || k + 1 > t.len() || (t[k] != '.' && t[k] != ')') {
            None
        } else {
            let num = crate::html_to_markdown::digits_value(t, k, 0) as u32;
            if k + 1 == t.len() {
                Some((true, '\0', num, t[k], sat(mrel + k + 2), true))
            } else if t[k + 1] == ' ' || t[k + 1] == '\t' {
                let rest = t.skip(k + 1);
                if crate::text::spec_trim(rest, 0).len() == 0 {
                    Some((true, '\0', num, t[k], sat(mrel + k + 2), true))
                } else {
                    Some((true, '\0', num, t[k], sat(mrel + mci_scan(rest, mphase, k + 1, 0, 0)), false))
                }
            } else {
                None
            }
        }
    }
}

/// List item marker: up to 3 indent, then `-`/`+`/`*` or 1-9 digits with
/// `.`/`)`, followed by whitespace or the end of the line.
fn parse_list_marker(line: &PLine) -> (r: Option<ListMarker>)
    ensures
        r matches Some(m) ==> (m.ordered ==> (m.delim == '.' || m.delim == ')')),
        r matches Some(m) ==> (!m.ordered ==> (m.bullet == '-' || m.bullet == '+' || m.bullet == '*')),
        match r {
            Some(m) => spec_list_marker(line.s@, line.phase as int) == Some(
                (m.ordered, m.bullet, m.number, m.delim, m.content_indent as int, m.empty),
            ),
            None => spec_list_marker(line.s@, line.phase as int) is None,
        },
{
    if indent_rel(line) > 3 {
        return None;
    }
    let stripped = strip_cols(line, 3);
    let t = stripped.s;
    if t.len() == 0 {
        return None;
    }
    let mrel = ws_end_col(&line.s, line.phase).1;
    let mphase = line.phase.saturating_add(mrel) % 4;
    let b0 = t[0];
    if b0 == '-' || b0 == '+' || b0 == '*' {
        if t.len() == 1 {
            return Some(bullet_marker(false, b0, 0, '\0', mrel.saturating_add(2), true));
        }
        if t[1] == ' ' || t[1] == '\t' {
            let rest = slice(&t, 1, t.len());
            assert(rest@ =~= t@.skip(1));
            let rt = trim(&rest);
            if rt.len() == 0 {
                return Some(bullet_marker(false, b0, 0, '\0', mrel.saturating_add(2), true));
            }
            let ci = mrel.saturating_add(marker_content_indent(mphase, 1, &rest));
            return Some(bullet_marker(false, b0, 0, '\0', ci, false));
        }
        return None;
    }
    let mut k: usize = 0;
    while k < t.len() && is_ascii_digit(t[k])
        invariant
            k <= t.len(),
            forall|j: int| 0 <= j < k ==> crate::text::spec_ascii_digit(#[trigger] t@[j]),
            digit_run(t@, k as int) == digit_run(t@, 0),
        decreases t.len() - k,
    {
        k += 1;
    }
    if k == 0 || k > 9 {
        return None;
    }
    if k + 1 > t.len() {
        return None;
    }
    let d = t[k];
    if d != '.' && d != ')' {
        return None;
    }
    let mut num: u32 = 0;
    let mut q: usize = 0;
    while q < k
        invariant
            q <= k <= 9,
            k < t.len(),
            (num as int) < p10(q as int),
            num as int == crate::html_to_markdown::digits_value(t@, q as int, 0),
            forall|j: int| 0 <= j < k ==> crate::text::spec_ascii_digit(#[trigger] t@[j]),
        decreases k - q,
    {
        let dg = (t[q] as u32) - 48;
        assert(crate::text::spec_ascii_digit(t@[q as int]));
        assert(dg <= 9);
        assert(p10(q as int) <= 100000000);
        assert(num * 10 + dg < p10(q as int) * 10) by (nonlinear_arith)
            requires
                (num as int) < p10(q as int),
                dg <= 9,
        ;
        num = num * 10 + dg;
        q += 1;
    }
    if k + 1 == t.len() {
        return Some(bullet_marker(true, '\0', num, d, mrel.saturating_add(k + 2), true));
    }
    if t[k + 1] == ' ' || t[k + 1] == '\t' {
        let rest = slice(&t, k + 1, t.len());
        assert(rest@ =~= t@.skip(k + 1));
        let rt = trim(&rest);
        if rt.len() == 0 {
            return Some(bullet_marker(true, '\0', num, d, mrel.saturating_add(k + 2), true));
        }
        let ci = mrel.saturating_add(marker_content_indent(mphase, k + 1, &rest));
        return Some(bullet_marker(true, '\0', num, d, ci, false));
    }
    None
}

// ---------------------------------------------------------------------------
// Reference definitions
// ---------------------------------------------------------------------------

/// Count of `\n` in `v[from..to]`.
pub open spec fn count_nl(v: Seq<char>, from: int, to: int) -> nat
    decreases to - from,
{
    if to <= from {
        0
    } else {
        count_nl(v, from, to - 1) + (if v[to - 1] == '\n' {
            1nat
        } else {
            0nat
        })
    }
}

/// Count of `\n` in `v[from..to]`.
fn count_newlines(v: &Vec<char>, from: usize, to: usize) -> (n: usize)
    requires
        from <= to <= v.len(),
    ensures
        n <= to - from,
        n == count_nl(v@, from as int, to as int),
{
    let mut n: usize = 0;
    let mut k = from;
    while k < to
        invariant
            from <= k <= to,
            n <= k - from,
            n == count_nl(v@, from as int, k as int),
        decreases to - k,
    {
        if v[k] == '\n' {
            n += 1;
        }
        k += 1;
    }
    n
}

/// A link title starting at `i` (`"..."`, `'...'` or `(...)`); returns the
/// title with backslash escapes of punctuation resolved and the index
/// after the closing delimiter. Titles may span lines.
pub open spec fn ref_title_from(s: Seq<char>, j: int, closing: char, acc: Seq<char>) -> Option<(Seq<char>, int)>
    decreases s.len() - j,
{
    if j < 0 || j >= s.len() {
        None
    } else if s[j] == closing {
        Some((acc, j + 1))
    } else if s[j] == '\\' && j + 1 < s.len() && crate::text::spec_ascii_punct(s[j + 1]) {
        ref_title_from(s, j + 2, closing, acc.push(s[j + 1]))
    } else {
        ref_title_from(s, j + 1, closing, acc.push(s[j]))
    }
}

/// A reference title at `i`: `"..."`, `'...'` or `(...)`, escapes of
/// punctuation resolved; the title and the index after it.
pub open spec fn spec_ref_title(s: Seq<char>, i: int) -> Option<(Seq<char>, int)> {
    if !(0 <= i < s.len()) {
        None
    } else if s[i] == '"' {
        ref_title_from(s, i + 1, '"', Seq::empty())
    } else if s[i] == '\'' {
        ref_title_from(s, i + 1, '\'', Seq::empty())
    } else if s[i] == '(' {
        ref_title_from(s, i + 1, ')', Seq::empty())
    } else {
        None
    }
}

fn parse_ref_title(wc: &Vec<char>, i: usize) -> (r: Option<(Vec<char>, usize)>)
    ensures
        r matches Some((_, np)) ==> i < np <= wc.len(),
        match r {
            Some((t, np)) => spec_ref_title(wc@, i as int) == Some((t@, np as int)),
            None => spec_ref_title(wc@, i as int) is None,
        },
{
    if i >= wc.len() {
        return None;
    }
    let q = wc[i];
    let closing = if q == '"' {
        '"'
    } else if q == '\'' {
        '\''
    } else if q == '(' {
        ')'
    } else {
        return None;
    };
    let mut j = i + 1;
    let mut title: Vec<char> = Vec::new();
    while j < wc.len()
        invariant
            i < j <= wc.len(),
            ref_title_from(wc@, j as int, closing, title@) == spec_ref_title(wc@, i as int),
        decreases wc.len() - j,
    {
        let c = wc[j];
        if c == closing {
            return Some((title, j + 1));
        }
        if c == '\\' && j + 1 < wc.len() && is_ascii_punct(wc[j + 1]) {
            title.push(wc[j + 1]);
            j += 2;
        } else {
            title.push(c);
            j += 1;
        }
    }
    None
}

/// Skip spaces and tabs from `p`.
fn skip_st(w: &Vec<char>, p: usize) -> (r: usize)
    requires
        p <= w.len(),
    ensures
        p <= r <= w.len(),
        r as int == crate::text::lead_end(w@, 1, p as int),
{
    skip_class(w, 1, p)
}

/// Lines `i+1+from ..` appended, each after a line feed, while they are
/// non-blank, below `max` of them and within the input: the count taken.
pub open spec fn window_end(lines: Seq<LV>, i: int, e: int, max: int) -> int
    decreases max - e,
{
    if e < max && e < lines.len() - i - 1 && 0 <= e && !spec_is_blank(lines[i + 1 + e].0) {
        window_end(lines, i, e + 1, max)
    } else {
        e
    }
}

/// The text of lines `i+1+from .. i+1+to`, each after a line feed.
pub open spec fn window_text(lines: Seq<LV>, i: int, from: int, to: int) -> Seq<char>
    decreases to - from,
{
    if to <= from {
        Seq::empty()
    } else {
        window_text(lines, i, from, to - 1) + seq!['\n'] + lines[i + to].0
    }
}

/// A definition's label from `k` (after `[`): escapes kept, no `[`, at
/// most 999 bytes outside escapes; the label and the index after `]`.
pub open spec fn refdef_label(lc: Seq<char>, k: int, bytes: int, acc: Seq<char>) -> Option<(Seq<char>, int)>
    decreases lc.len() - k,
{
    if k < 0 || k >= lc.len() {
        None
    } else if lc[k] == '\\' && k + 1 < lc.len() {
        refdef_label(lc, k + 2, sat(sat(bytes + 1) + crate::text::spec_utf8_len(lc[k + 1])), acc.push(lc[k]).push(lc[k + 1]))
    } else if lc[k] == ']' {
        Some((acc, k + 1))
    } else if lc[k] == '[' {
        None
    } else {
        let b = sat(bytes + crate::text::spec_utf8_len(lc[k]));
        if b > 999 {
            None
        } else {
            refdef_label(lc, k + 1, b, acc.push(lc[k]))
        }
    }
}

/// The title and end of a definition after its destination ending at `p`:
/// a title (on the line or the next) is taken when only blanks follow it;
/// otherwise the definition ends after the destination, which must then
/// end its line. `None` when neither works.
pub open spec fn refdef_tail(wc: Seq<char>, p: int) -> Option<(Option<Seq<char>>, int)> {
    let p2 = crate::text::lead_end(wc, 1, p);
    if p2 < wc.len() && wc[p2] != '\n' {
        let titled = if p2 > p {
            match spec_ref_title(wc, p2) {
                Some((tt, np)) => {
                    let r = crate::text::lead_end(wc, 1, np);
                    if r >= wc.len() || wc[r] == '\n' {
                        Some((Some(tt), r))
                    } else {
                        None
                    }
                },
                None => None,
            }
        } else {
            None
        };
        match titled {
            Some(x) => Some(x),
            None => {
                let r = crate::text::lead_end(wc, 1, p);
                if r >= wc.len() || wc[r] == '\n' {
                    Some((None, r))
                } else {
                    None
                }
            },
        }
    } else if p2 < wc.len() && wc[p2] == '\n' {
        let q = crate::text::lead_end(wc, 1, p2 + 1);
        let titled = if q < wc.len() && (wc[q] == '"' || wc[q] == '\'' || wc[q] == '(') {
            match spec_ref_title(wc, q) {
                Some((tt, np)) => {
                    let r = crate::text::lead_end(wc, 1, np);
                    if r >= wc.len() || wc[r] == '\n' {
                        Some((Some(tt), r))
                    } else {
                        None
                    }
                },
                None => None,
            }
        } else {
            None
        };
        match titled {
            Some(x) => Some(x),
            None => Some((None, p2)),
        }
    } else {
        Some((None, p2))
    }
}

/// A link reference definition starting at line `i`: `[label]:`, a
/// destination, an optional title, over at most the next 12 non-blank
/// lines (the label over at most 3). The normalized label, the
/// destination and title with entities decoded, and the lines used.
pub open spec fn spec_refdef(lines: Seq<LV>, i: int) -> Option<(Seq<char>, Seq<char>, Option<Seq<char>>, int)> {
    let l = lines[i];
    let t = strip_view(l.0, l.1 as int, 3).0;
    let lextra = window_end(lines, i, 0, 3);
    let lc = t + window_text(lines, i, 0, lextra);
    if ws_scan(l.0, l.1 as int, 0, 0).1 > 3 || t.len() == 0 || t[0] != '[' {
        None
    } else {
        match refdef_label(lc, 1, 0, Seq::empty()) {
            None => None,
            Some((label, k0)) => if k0 >= lc.len() || lc[k0] != ':' {
                None
            } else {
                let k = k0 + 1;
                let label_newlines = count_nl(lc, 0, k);
                let extra = window_end(lines, i, lextra, 12);
                let wc = lc.skip(k) + window_text(lines, i, lextra, extra);
                let p0 = crate::text::lead_end(wc, 1, 0);
                let p1 = if p0 < wc.len() && wc[p0] == '\n' {
                    crate::text::lead_end(wc, 1, p0 + 1)
                } else {
                    p0
                };
                if p0 < wc.len() && wc[p0] == '\n' && p1 < wc.len() && wc[p1] == '\n' {
                    None
                } else {
                    let d = if p1 < wc.len() && wc[p1] == '<' {
                        crate::inline_parser::angle_dest_from(wc, p1 + 1, Seq::empty())
                    } else {
                        crate::inline_parser::plain_dest_from(wc, p1, 0, false, Seq::empty())
                    };
                    match d {
                        None => None,
                        Some((dest, p)) => match refdef_tail(wc, p) {
                            None => None,
                            Some((title, end)) => {
                                let endc = if end < wc.len() {
                                    end
                                } else {
                                    wc.len() as int
                                };
                                let newlines = sat((label_newlines + count_nl(wc, 0, endc)) as int);
                                let key = crate::inline_parser::spec_normalize_label(label);
                                if newlines > extra || newlines >= lines.len() - i || key.len() == 0
                                    || label.len() > 999 {
                                    None
                                } else {
                                    Some(
                                        (
                                            key,
                                            crate::html_escape::spec_unescape_html(dest),
                                            match title {
                                                Some(tt) => Some(crate::html_escape::spec_unescape_html(tt)),
                                                None => None,
                                            },
                                            1 + newlines,
                                        ),
                                    )
                                }
                            },
                        },
                    }
                }
            },
        }
    }
}

/// The destination of a definition at `p`: in `<...>` or bare.
fn refdef_dest(wc: &Vec<char>, p0: usize) -> (r: Option<(Vec<char>, usize)>)
    requires
        p0 <= wc@.len(),
    ensures
        match r {
            Some((d, np)) => (if p0 < wc@.len() && wc@[p0 as int] == '<' {
                crate::inline_parser::angle_dest_from(wc@, p0 + 1, Seq::empty())
            } else {
                crate::inline_parser::plain_dest_from(wc@, p0 as int, 0, false, Seq::empty())
            }) == Some((d@, np as int)) && np <= wc@.len(),
            None => (if p0 < wc@.len() && wc@[p0 as int] == '<' {
                crate::inline_parser::angle_dest_from(wc@, p0 + 1, Seq::empty())
            } else {
                crate::inline_parser::plain_dest_from(wc@, p0 as int, 0, false, Seq::empty())
            }) is None,
        },
{
    let mut p = p0;
    let mut dest: Vec<char> = Vec::new();
    if p < wc.len() && wc[p] == '<' {
        let ghost p1 = p;
        p += 1;
        while p < wc.len() && wc[p] != '>'
            invariant
                p <= wc.len(),
                crate::inline_parser::angle_dest_from(wc@, p as int, dest@) == crate::inline_parser::angle_dest_from(wc@, p1 + 1, Seq::empty()),
            decreases wc.len() - p,
        {
            if wc[p] == '\n' || wc[p] == '\r' || wc[p] == '<' {
                return None;
            }
            if wc[p] == '\\' && p + 1 < wc.len() && is_ascii_punct(wc[p + 1]) {
                dest.push(wc[p + 1]);
                p += 2;
            } else {
                dest.push(wc[p]);
                p += 1;
            }
        }
        if p >= wc.len() || wc[p] != '>' {
            return None;
        }
        p += 1;
    } else {
        let mut depth: usize = 0;
        let mut any = false;
        let ghost p1 = p;
        while p < wc.len()
            invariant
                p1 <= p <= wc.len(),
                depth <= p,
                crate::inline_parser::plain_dest_from(wc@, p as int, depth as nat, any, dest@) == crate::inline_parser::plain_dest_from(wc@, p1 as int, 0, false, Seq::empty()),
            decreases wc.len() - p,
        {
            let c = wc[p];
            if c == ' ' || c == '\t' || c == '\n' || c == '\r' {
                break;
            }
            if c == '(' {
                depth += 1;
                dest.push(c);
                any = true;
                p += 1;
            } else if c == ')' {
                if depth == 0 {
                    break;
                }
                depth -= 1;
                dest.push(c);
                any = true;
                p += 1;
            } else if c == '\\' && p + 1 < wc.len() && is_ascii_punct(wc[p + 1]) {
                dest.push(wc[p + 1]);
                any = true;
                p += 2;
            } else if is_control(c) {
                return None;
            } else {
                dest.push(c);
                any = true;
                p += 1;
            }
        }
        if !any {
            return None;
        }
    }
    Some((dest, p))
}

/// What follows a definition's destination ending at `p` (see
/// [`refdef_tail`]).
fn refdef_tail_exec(wc: &Vec<char>, p: usize) -> (r: Option<(Option<Vec<char>>, usize)>)
    requires
        p <= wc@.len(),
    ensures
        match r {
            Some((t, end)) => refdef_tail(wc@, p as int) == Some((crate::inline_parser::opt_view(t), end as int)),
            None => refdef_tail(wc@, p as int) is None,
        },
{
    let p2 = skip_st(&wc, p);
    let mut title: Option<Vec<char>> = None;
    let mut end = p2;
    let mut ok = false;
    if p2 < wc.len() && wc[p2] != '\n' {
        if p2 > p {
            match parse_ref_title(&wc, p2) {
                Some((tt, np)) => {
                    let r = skip_st(&wc, np);
                    if r >= wc.len() || wc[r] == '\n' {
                        title = Some(tt);
                        end = r;
                        ok = true;
                    }
                },
                None => {},
            }
        }
        if !ok {
            let r = skip_st(&wc, p);
            if r >= wc.len() || wc[r] == '\n' {
                end = r;
                ok = true;
            }
        }
    } else if p2 < wc.len() && wc[p2] == '\n' {
        // Maybe a title on the next line; else destination-only.
        let q = skip_st(&wc, p2 + 1);
        let mut titled = false;
        if q < wc.len() && (wc[q] == '"' || wc[q] == '\'' || wc[q] == '(') {
            match parse_ref_title(&wc, q) {
                Some((tt, np)) => {
                    let r = skip_st(&wc, np);
                    if r >= wc.len() || wc[r] == '\n' {
                        title = Some(tt);
                        end = r;
                        titled = true;
                    }
                },
                None => {},
            }
        }
        if !titled {
            end = p2;
        }
        ok = true;
    } else {
        end = p2;
        ok = true;
    }
    if !ok {
        return None;
    }
    Some((title, end))
}

/// Try to parse a link reference definition starting at `lines[i]`.
/// Returns (normalized key, destination, title, lines consumed).
#[verifier::spinoff_prover]
#[verifier::rlimit(100)]
fn try_refdef(lines: &Vec<PLine>, i: usize) -> (r: Option<(Vec<char>, Vec<char>, Option<Vec<char>>, usize)>)
    requires
        i < lines.len(),
    ensures
        r matches Some((_, _, _, consumed)) ==> 1 <= consumed && i + consumed <= lines.len(),
        match r {
            Some((key, dest, title, consumed)) => spec_refdef(plines_view(lines@), i as int) == Some(
                (key@, dest@, crate::inline_parser::opt_view(title), consumed as int),
            ),
            None => spec_refdef(plines_view(lines@), i as int) is None,
        },
{
    // Up to 3 columns indent (a tab-indented line is code, not a refdef).
    if indent_rel(&lines[i]) > 3 {
        return None;
    }
    let t = strip_cols(&lines[i], 3).s;
    if t.len() == 0 || t[0] != '[' {
        return None;
    }
    // The label may span lines (no blank lines inside): a small window.
    let mut lc = copy(&t);
    let mut lextra: usize = 0;
    while lextra < 3 && lextra < lines.len() - i - 1 && !is_blank(&lines[i + 1 + lextra].s)
        invariant
            lextra <= 3,
            i < lines.len(),
            lextra <= lines.len() - i - 1,
            lc@.len() > 0,
            lc@ == t@ + window_text(plines_view(lines@), i as int, 0, lextra as int),
            window_end(plines_view(lines@), i as int, lextra as int, 3) == window_end(plines_view(lines@), i as int, 0, 3),
        decreases 3 - lextra,
    {
        lc.push('\n');
        push_vec(&mut lc, &lines[i + 1 + lextra].s);
        lextra += 1;
        assert(lc@ =~= t@ + window_text(plines_view(lines@), i as int, 0, lextra as int));
    }
    // Scan the label; backslash escapes stay literal for label matching.
    // An unescaped `[` inside is forbidden; `]` closes.
    let mut label: Vec<char> = Vec::new();
    let mut label_bytes: usize = 0;
    let mut k: usize = 1;
    let mut closed = false;
    while k < lc.len() && !closed
        invariant
            1 <= k <= lc.len(),
            !closed ==> refdef_label(lc@, k as int, label_bytes as int, label@) == refdef_label(lc@, 1, 0, Seq::empty()),
            closed ==> refdef_label(lc@, 1, 0, Seq::empty()) == Some((label@, k as int)),
        decreases lc.len() - k,
    {
        let c = lc[k];
        if c == '\\' && k + 1 < lc.len() {
            label.push(c);
            label.push(lc[k + 1]);
            label_bytes = label_bytes.saturating_add(1).saturating_add(utf8_len(lc[k + 1]));
            k += 2;
        } else if c == ']' {
            closed = true;
            k += 1;
        } else if c == '[' {
            return None;
        } else {
            label.push(c);
            label_bytes = label_bytes.saturating_add(utf8_len(c));
            if label_bytes > 999 {
                return None;
            }
            k += 1;
        }
    }
    if !closed {
        return None;
    }
    if k >= lc.len() || lc[k] != ':' {
        return None;
    }
    k += 1;
    // Everything after `:` plus further non-blank lines (titles may span
    // lines, never a blank line).
    let label_newlines = count_newlines(&lc, 0, k);
    let mut wc = slice(&lc, k, lc.len());
    let mut extra = lextra;
    assert(wc@ =~= lc@.skip(k as int) + window_text(plines_view(lines@), i as int, lextra as int, extra as int));
    while extra < lines.len() - i - 1 && !is_blank(&lines[i + 1 + extra].s) && extra < 12
        invariant
            i < lines.len(),
            lextra <= extra <= lines.len() - i - 1,
            wc@ == lc@.skip(k as int) + window_text(plines_view(lines@), i as int, lextra as int, extra as int),
            window_end(plines_view(lines@), i as int, extra as int, 12) == window_end(plines_view(lines@), i as int, lextra as int, 12),
        decreases lines.len() - i - 1 - extra,
    {
        wc.push('\n');
        push_vec(&mut wc, &lines[i + 1 + extra].s);
        extra += 1;
        assert(wc@ =~= lc@.skip(k as int) + window_text(plines_view(lines@), i as int, lextra as int, extra as int));
    }
    let mut p = skip_st(&wc, 0);
    if p < wc.len() && wc[p] == '\n' {
        p = skip_st(&wc, p + 1);
        // A second line break before the destination is not allowed.
        if p < wc.len() && wc[p] == '\n' {
            return None;
        }
    }
    // Destination.
    let (dest, p) = match refdef_dest(&wc, p) {
        Some(x) => x,
        None => {
            return None;
        },
    };
    // After the destination: spaces/tabs, an optional title, then the end
    // of the line.
    let (title, end) = match refdef_tail_exec(&wc, p) {
        Some(x) => x,
        None => {
            return None;
        },
    };
    let endc = if end < wc.len() {
        end
    } else {
        wc.len()
    };
    let newlines = label_newlines.saturating_add(count_newlines(&wc, 0, endc));
    if newlines > extra || newlines >= lines.len() - i {
        return None;
    }
    let consumed = 1 + newlines;
    let key = normalize_label_chars(&label);
    if key.len() == 0 || label.len() > 999 {
        return None;
    }
    // Destinations and titles get entity decoding; percent-encoding
    // happens at render time.
    let dest2 = unescape_chars(&dest);
    let title2 = match title {
        Some(tt) => Some(unescape_chars(&tt)),
        None => None,
    };
    Some((key, dest2, title2, consumed))
}

// ---------------------------------------------------------------------------
// Container classification
// ---------------------------------------------------------------------------

/// Strip all leading blockquote markers from a line, keeping the phase.
/// Each round consumes a `>`, so the text only gets shorter.
/// Blockquote markers stripped for as long as one is there and the text
/// gets shorter: the rest and its phase.
pub open spec fn strip_bq_from(s: Seq<char>, phase: int) -> (Seq<char>, int)
    decreases s.len(),
{
    match spec_bq_marker(s, phase) {
        Some((rs, rp)) => if rs.len() >= s.len() {
            (s, phase)
        } else {
            strip_bq_from(rs, rp)
        },
        None => (s, phase),
    }
}

fn strip_all_bq_markers(line: &PLine) -> (r: PLine)
    ensures
        !r.lazy,
        (r.s@, r.phase as int) == strip_bq_from(line.s@, line.phase as int),
{
    let mut cur = PLine { s: copy(&line.s), phase: line.phase, lazy: false };
    loop
        invariant
            !cur.lazy,
            strip_bq_from(cur.s@, cur.phase as int) == strip_bq_from(line.s@, line.phase as int),
        decreases cur.s@.len(),
    {
        match parse_blockquote_marker(&cur) {
            Some(rest) => {
                if rest.s.len() >= cur.s.len() {
                    break;
                }
                cur = rest;
            },
            None => {
                break;
            },
        }
    }
    cur
}

/// Content after a list marker (marker plus 1-4 spaces or a tab
/// consumed); `None` for an empty item. Phase-exact: a separator tab is
/// only partially consumed (the text keeps it, the phase advances by 1).
/// The index of the first tab in `t[k..wl]`, or `wl`.
pub open spec fn first_tab(t: Seq<char>, k: int, wl: int) -> int
    decreases wl - k,
{
    if k >= wl || k < 0 || k >= t.len() {
        wl
    } else if t[k] == '\t' {
        k
    } else {
        first_tab(t, k + 1, wl)
    }
}

/// The content after a list marker (marker plus 1-4 spaces, or a tab
/// taken one column): text and phase; `None` for an empty item. With 5 or
/// more spaces only one is taken; before a tab inside the spaces, the tab
/// stop's column is reached.
pub open spec fn spec_content_after(s: Seq<char>, phase: int, ordered: bool) -> Option<(Seq<char>, int)> {
    let (t, p0) = strip_view(s, phase, 3);
    let d = digit_run(t, 0);
    if (ordered && d >= t.len()) || (!ordered && t.len() <= 1) {
        None
    } else {
        let mw = if ordered {
            d + 1
        } else {
            1
        };
        let rest = t.skip(mw);
        let base = sat(p0 + mw);
        if rest.len() == 0 || (rest[0] != ' ' && rest[0] != '\t') {
            None
        } else {
            let c: (Seq<char>, int) = if rest[0] == ' ' {
                let wl = crate::text::lead_end(rest, 1, 0);
                let tp = first_tab(rest, 0, wl);
                if tp < wl {
                    let before = sat(base + tp);
                    (rest.skip(tp + 1), sat(before + 4 - before % 4) % 4)
                } else if wl >= 5 {
                    (rest.skip(1), sat(base + 1) % 4)
                } else {
                    (rest.skip(wl), sat(base + wl) % 4)
                }
            } else {
                (rest, sat(base + 1) % 4)
            };
            if crate::text::spec_trim(c.0, 0).len() == 0 {
                None
            } else {
                Some(c)
            }
        }
    }
}

#[verifier::spinoff_prover]
#[verifier::rlimit(60)]
fn list_content_after(line: &PLine, m: &ListMarker) -> (r: Option<PLine>)
    ensures
        r matches Some(c) ==> c.s@.len() <= line.s@.len() + 3 && !c.lazy,
        match r {
            Some(c) => spec_content_after(line.s@, line.phase as int, m.ordered) == Some((c.s@, c.phase as int)),
            None => spec_content_after(line.s@, line.phase as int, m.ordered) is None,
        },
{
    let stripped = strip_cols(line, 3);
    let t = stripped.s;
    let p0 = stripped.phase;
    let mut mw: usize = 0;
    if m.ordered {
        while mw < t.len() && is_ascii_digit(t[mw])
            invariant
                mw <= t.len(),
                digit_run(t@, mw as int) == digit_run(t@, 0),
            decreases t.len() - mw,
        {
            mw += 1;
        }
        if mw >= t.len() {
            return None;
        }
        mw += 1;
    } else if t.len() > 1 {
        mw = 1;
    } else {
        return None;
    }
    let rest = slice(&t, mw, t.len());
    assert(rest@ =~= t@.skip(mw as int));
    if rest.len() == 0 {
        return None;
    }
    let base = p0.saturating_add(mw);
    let c = if rest[0] == ' ' {
        let wl = skip_st(&rest, 0);
        let mut tp: usize = 0;
        while tp < wl && rest[tp] != '\t'
            invariant
                tp <= wl <= rest.len(),
                first_tab(rest@, tp as int, wl as int) == first_tab(rest@, 0, wl as int),
            decreases wl - tp,
        {
            tp += 1;
        }
        if tp < wl {
            // Content starts after the tab; the phase is the tab stop's.
            let before = base.saturating_add(tp);
            let endphase = before.saturating_add(4 - (before % 4)) % 4;
            PLine { s: slice(&rest, tp + 1, rest.len()), phase: endphase, lazy: false }
        } else if wl >= 5 {
            PLine { s: slice(&rest, 1, rest.len()), phase: base.saturating_add(1) % 4, lazy: false }
        } else {
            PLine { s: slice(&rest, wl, rest.len()), phase: base.saturating_add(wl) % 4, lazy: false }
        }
    } else if rest[0] == '\t' {
        PLine { s: rest, phase: base.saturating_add(1) % 4, lazy: false }
    } else {
        return None;
    };
    let ct = trim(&c.s);
    if ct.len() == 0 {
        return None;
    }
    Some(c)
}

/// A non-blank line that starts no block: paragraph text.
pub open spec fn spec_para_text(s: Seq<char>, phase: int) -> bool {
    !spec_is_blank(s) && !(spec_fence_open(s, phase) is Some || spec_atx(s, phase) is Some
        || spec_thematic_break(s, phase) || spec_html_block_start(s, phase, true) is Some
        || spec_list_marker(s, phase) is Some || spec_bq_marker(s, phase) is Some || ws_scan(
        s,
        phase,
        0,
        0,
    ).1 >= 4)
}

/// A non-blank line that starts no block: paragraph text.
fn line_is_para_text(line: &PLine) -> (r: bool)
    ensures
        r == spec_para_text(line.s@, line.phase as int),
{
    if is_blank(&line.s) {
        return false;
    }
    !(parse_fence_open(line).is_some() || parse_atx(line).is_some() || is_thematic_break(line)
        || html_block_start(line, true).is_some() || parse_list_marker(line).is_some()
        || parse_blockquote_marker(line).is_some() || indent_rel(line) >= 4)
}

/// True when a container line leaves a paragraph open for lazy
/// continuation, looking through nested quote and list markers. Each
/// round consumes a list marker, so the text only gets shorter.
pub open spec fn inner_open_from(s: Seq<char>, phase: int) -> bool
    decreases s.len(),
{
    match spec_list_marker(s, phase) {
        Some(m) => match spec_content_after(s, phase, m.0) {
            Some((cs, cp)) => {
                let next = strip_bq_from(cs, cp);
                if next.0.len() >= s.len() {
                    false
                } else {
                    inner_open_from(next.0, next.1)
                }
            },
            None => false,
        },
        None => spec_para_text(s, phase),
    }
}

/// A container line leaves a paragraph open: through its quote markers
/// and list markers, paragraph text remains.
pub open spec fn spec_inner_para_open(s: Seq<char>, phase: int) -> bool {
    let c = strip_bq_from(s, phase);
    inner_open_from(c.0, c.1)
}

fn inner_para_open(line: &PLine) -> (r: bool)
    ensures
        r == spec_inner_para_open(line.s@, line.phase as int),
{
    let mut cur = strip_all_bq_markers(line);
    loop
        invariant
            inner_open_from(cur.s@, cur.phase as int) == spec_inner_para_open(line.s@, line.phase as int),
        decreases cur.s@.len(),
    {
        match parse_list_marker(&cur) {
            Some(m) => {
                match list_content_after(&cur, &m) {
                    Some(content) => {
                        let next = strip_all_bq_markers(&content);
                        if next.s.len() >= cur.s.len() {
                            return false;
                        }
                        cur = next;
                    },
                    None => {
                        return false;
                    },
                }
            },
            None => {
                return line_is_para_text(&cur);
            },
        }
    }
}

/// True when a non-blank line begins a block that cannot be a lazy
/// continuation of a paragraph inside a quote or list.
pub open spec fn spec_interrupting(s: Seq<char>, phase: int, in_para: bool) -> bool {
    spec_fence_open(s, phase) is Some || spec_atx(s, phase) is Some || spec_bq_marker(s, phase) is Some
        || spec_thematic_break(s, phase) || spec_html_block_start(s, phase, in_para) is Some
        || spec_list_marker(s, phase) is Some
}

fn is_interrupting_block_start(line: &PLine, in_para: bool) -> (r: bool)
    ensures
        r == spec_interrupting(line.s@, line.phase as int, in_para),
{
    parse_fence_open(line).is_some() || parse_atx(line).is_some()
        || parse_blockquote_marker(line).is_some() || is_thematic_break(line)
        || html_block_start(line, in_para).is_some() || parse_list_marker(line).is_some()
}

// ---------------------------------------------------------------------------
// Pipe tables
// ---------------------------------------------------------------------------

/// The cells of a table row from `i` on, with `cur` the text of the cell
/// being read and `after_pipe` telling whether a pipe was just read: cells
/// are separated by unescaped `|`, an escaped `\|` becomes `|` (other
/// escapes stay for the inline parser), a pipe at the very end adds no
/// empty cell, and each cell is trimmed.
pub open spec fn cells_from(t: Seq<char>, i: int, cur: Seq<char>, after_pipe: bool) -> Seq<Seq<char>>
    decreases t.len() - i,
{
    if i < 0 || i >= t.len() {
        if after_pipe && cur.len() == 0 {
            Seq::empty()
        } else {
            seq![crate::text::spec_trim(cur, 0)]
        }
    } else if t[i] == '\\' && i + 1 < t.len() && t[i + 1] == '|' {
        cells_from(t, i + 2, cur.push('|'), false)
    } else if t[i] == '\\' && i + 1 < t.len() {
        cells_from(t, i + 2, cur.push('\\').push(t[i + 1]), false)
    } else if t[i] == '|' {
        seq![crate::text::spec_trim(cur, 0)] + cells_from(t, i + 1, Seq::empty(), true)
    } else {
        cells_from(t, i + 1, cur.push(t[i]), false)
    }
}

/// The cells of a table row: the row trimmed, one leading `|` skipped.
pub open spec fn spec_row_cells(row: Seq<char>) -> Seq<Seq<char>> {
    let t = crate::text::spec_trim(row, 0);
    if t.len() > 0 && t[0] == '|' {
        cells_from(t, 1, Seq::empty(), true)
    } else {
        cells_from(t, 0, Seq::empty(), false)
    }
}

/// Split a table row into trimmed cells.
fn split_row(row: &Vec<char>) -> (r: Vec<Vec<char>>)
    ensures
        r@.len() == spec_row_cells(row@).len(),
        forall|k: int| 0 <= k < r@.len() ==> #[trigger] r@[k]@ == spec_row_cells(row@)[k],
{
    let t = trim(row);
    let mut p: usize = 0;
    let mut after_pipe = false;
    if t.len() > 0 && t[0] == '|' {
        p = 1;
        after_pipe = true;
    }
    let mut cells: Vec<Vec<char>> = Vec::new();
    let mut cur: Vec<char> = Vec::new();
    let ghost target = spec_row_cells(row@);
    while p < t.len()
        invariant
            p <= t@.len(),
            ({
                let cv = Seq::new(cells@.len(), |k: int| cells@[k]@);
                cv + cells_from(t@, p as int, cur@, after_pipe) == target
            }),
        decreases t@.len() - p,
    {
        let ghost cv0 = Seq::new(cells@.len(), |k: int| cells@[k]@);
        let c = t[p];
        if c == '\\' && p + 1 < t.len() && t[p + 1] == '|' {
            cur.push('|');
            p += 2;
            after_pipe = false;
        } else if c == '\\' && p + 1 < t.len() {
            cur.push('\\');
            cur.push(t[p + 1]);
            p += 2;
            after_pipe = false;
        } else if c == '|' {
            let cell = trim(&cur);
            cells.push(cell);
            let ghost cv1 = Seq::new(cells@.len(), |k: int| cells@[k]@);
            assert(cv1 =~= cv0.push(crate::text::spec_trim(cur@, 0)));
            cur = Vec::new();
            p += 1;
            after_pipe = true;
            assert(cv0 + (seq![cv1.last()] + cells_from(t@, p as int, cur@, after_pipe)) =~= cv1
                + cells_from(t@, p as int, cur@, after_pipe));
        } else {
            cur.push(c);
            p += 1;
            after_pipe = false;
        }
    }
    let ghost cv0 = Seq::new(cells@.len(), |k: int| cells@[k]@);
    if !(after_pipe && cur.len() == 0) {
        let cell = trim(&cur);
        cells.push(cell);
        let ghost cv1 = Seq::new(cells@.len(), |k: int| cells@[k]@);
        assert(cv1 =~= cv0 + cells_from(t@, p as int, cur@, after_pipe));
    } else {
        assert(cv0 =~= cv0 + cells_from(t@, p as int, cur@, after_pipe));
    }
    let ghost cv = Seq::new(cells@.len(), |k: int| cells@[k]@);
    assert(cv =~= target);
    assert forall|k: int| 0 <= k < cells@.len() implies #[trigger] cells@[k]@ == target[k] by {
        assert(cv[k] == cells@[k]@);
    }
    cells
}

/// Alignment of one delimiter cell (`:?-+:?`), or `None` when the cell is
/// not a delimiter.
/// A delimiter-row cell: an optional `:`, one or more `-`, an optional
/// `:`; the alignment the colons give.
pub open spec fn spec_delim_cell(c: Seq<char>) -> Option<Align> {
    let n = c.len() as int;
    let left = n > 0 && c[0] == ':';
    let right = n > 1 && c[n - 1] == ':';
    let a: int = if left {
        1
    } else {
        0
    };
    let b: int = if right {
        n - 1
    } else {
        n
    };
    if n == 0 || a >= b || exists|k: int| a <= k < b && #[trigger] c[k] != '-' {
        None
    } else if left && right {
        Some(Align::Center)
    } else if left {
        Some(Align::Left)
    } else if right {
        Some(Align::Right)
    } else {
        Some(Align::Unset)
    }
}

fn delimiter_cell(c: &Vec<char>) -> (r: Option<Align>)
    ensures
        r == spec_delim_cell(c@),
{
    let n = c.len();
    if n == 0 {
        return None;
    }
    let left = c[0] == ':';
    let right = n > 1 && c[n - 1] == ':';
    let a: usize = if left {
        1
    } else {
        0
    };
    let b: usize = if right {
        n - 1
    } else {
        n
    };
    if a >= b {
        return None;
    }
    let mut k = a;
    while k < b
        invariant
            a <= k <= b <= c@.len(),
            forall|j: int| a <= j < k ==> c@[j] == '-',
        decreases b - k,
    {
        if c[k] != '-' {
            return None;
        }
        k += 1;
    }
    Some(if left && right {
        Align::Center
    } else if left {
        Align::Left
    } else if right {
        Align::Right
    } else {
        Align::Unset
    })
}

/// The alignments of cells `k..` of a delimiter row, `None` when one is
/// not a delimiter cell.
pub open spec fn delim_cells_from(cells: Seq<Seq<char>>, k: int) -> Option<Seq<Align>>
    decreases cells.len() - k,
{
    if k < 0 || k >= cells.len() {
        Some(Seq::empty())
    } else {
        match (spec_delim_cell(cells[k]), delim_cells_from(cells, k + 1)) {
            (Some(a), Some(rest)) => Some(seq![a] + rest),
            _ => None,
        }
    }
}

/// A delimiter row: at most 3 columns of indent, at least one cell, every
/// cell `:?-+:?`; the column alignments.
pub open spec fn spec_delim_row(s: Seq<char>, phase: int) -> Option<Seq<Align>> {
    let cells = spec_row_cells(s);
    if ws_scan(s, phase, 0, 0).1 > 3 || cells.len() == 0 {
        None
    } else {
        delim_cells_from(cells, 0)
    }
}

proof fn lemma_delim_cells_from(cells: Seq<Seq<char>>, k: int)
    requires
        0 <= k <= cells.len(),
    ensures
        (forall|j: int| k <= j < cells.len() ==> #[trigger] spec_delim_cell(cells[j]) is Some) ==> delim_cells_from(cells, k) == Some(
            Seq::new((cells.len() - k) as nat, |j: int| spec_delim_cell(cells[k + j])->0),
        ),
        (exists|j: int| k <= j < cells.len() && #[trigger] spec_delim_cell(cells[j]) is None) ==> delim_cells_from(cells, k) is None,
    decreases cells.len() - k,
{
    if k < cells.len() {
        lemma_delim_cells_from(cells, k + 1);
        if forall|j: int| k <= j < cells.len() ==> #[trigger] spec_delim_cell(cells[j]) is Some {
            assert(seq![spec_delim_cell(cells[k])->0] + Seq::new((cells.len() - k - 1) as nat, |j: int| spec_delim_cell(cells[k + 1 + j])->0)
                =~= Seq::new((cells.len() - k) as nat, |j: int| spec_delim_cell(cells[k + j])->0));
        }
    } else {
        assert(Seq::<Align>::empty() =~= Seq::new(0, |j: int| spec_delim_cell(cells[k + j])->0));
    }
}

/// A delimiter row (at most 3 columns of indent, every cell `:?-+:?`):
/// the column alignments.
fn delimiter_row(line: &PLine) -> (r: Option<Vec<Align>>)
    ensures
        r matches Some(a) ==> a@.len() > 0,
        match r {
            Some(a) => spec_delim_row(line.s@, line.phase as int) == Some(a@),
            None => spec_delim_row(line.s@, line.phase as int) is None,
        },
{
    if indent_rel(line) > 3 {
        return None;
    }
    let cells = split_row(&line.s);
    if cells.len() == 0 {
        return None;
    }
    let ghost cs = spec_row_cells(line.s@);
    proof {
        lemma_delim_cells_from(cs, 0);
    }
    let mut aligns: Vec<Align> = Vec::new();
    let mut k: usize = 0;
    while k < cells.len()
        invariant
            k <= cells@.len(),
            aligns@.len() == k,
            cells@.len() == cs.len(),
            forall|j: int| 0 <= j < cells@.len() ==> #[trigger] cells@[j]@ == cs[j],
            forall|j: int| 0 <= j < k ==> #[trigger] spec_delim_cell(cs[j]) == Some(aligns@[j]),
        decreases cells@.len() - k,
    {
        match delimiter_cell(&cells[k]) {
            Some(a) => aligns.push(a),
            None => {
                assert(spec_delim_cell(cs[k as int]) is None);
                return None;
            },
        }
        k += 1;
    }
    assert(aligns@ =~= Seq::new(cs.len(), |j: int| spec_delim_cell(cs[0 + j])->0));
    Some(aligns)
}

// ---------------------------------------------------------------------------
// Block parser (container blocks with lazy continuation)
// ---------------------------------------------------------------------------

/// Close an open paragraph that ends before line `end`.
fn flush_para(
    blocks: &mut Vec<Block>,
    spans: &mut Vec<(usize, usize)>,
    para: &mut Vec<PLine>,
    end: usize,
)
    requires
        old(para)@.len() <= end,
        old(blocks)@.len() == old(spans)@.len(),
    ensures
        final(para)@.len() == 0,
        final(blocks)@.len() == final(spans)@.len(),
        mbs_view(final(blocks)@) == flush_blocks(mbs_view(old(blocks)@), plines_view(old(para)@)),
        final(spans)@ == flush_spans(old(spans)@, plines_view(old(para)@), end as int),
        plines_view(final(para)@) == Seq::<LV>::empty(),
{
    if para.len() > 0 {
        let start = end - para.len();
        let mut texts: Vec<Vec<char>> = Vec::new();
        let mut k: usize = 0;
        while k < para.len()
            invariant
                k <= para@.len(),
                texts@.len() == k,
                forall|j: int| 0 <= j < k ==> (#[trigger] texts@[j])@ == para@[j].s@,
            decreases para@.len() - k,
        {
            texts.push(copy(&para[k].s));
            k += 1;
        }
        assert(lines_view(texts@) =~= texts_of(plines_view(para@)));
        push_block(blocks, spans, Block::Paragraph(texts), start, end);
        para.clear();
    }
    proof {
        lemma_plines_empty(para@);
    }
}

/// Add a block and its span.
fn push_block(blocks: &mut Vec<Block>, spans: &mut Vec<(usize, usize)>, b: Block, from: usize, to: usize)
    requires
        old(blocks)@.len() == old(spans)@.len(),
    ensures
        final(blocks)@.len() == final(spans)@.len(),
        mbs_view(final(blocks)@) == mbs_view(old(blocks)@).push(mb_view(b)),
        final(spans)@ == old(spans)@.push((from, to)),
{
    proof {
        lemma_mbs_push(blocks@, b);
    }
    blocks.push(b);
    spans.push((from, to));
}

proof fn lemma_stripped_push(lv: Seq<LV>, a: int, j: int, n: int, c0: Seq<Vec<char>>, x: Vec<char>)
    requires
        0 <= a <= j < lv.len(),
        lines_view(c0) == stripped_texts(lv.subrange(a, j), n),
        x@ == strip_view(lv[j].0, lv[j].1 as int, n).0,
    ensures
        lines_view(c0.push(x)) == stripped_texts(lv.subrange(a, j + 1), n),
{
    assert(lines_view(c0.push(x)) =~= lines_view(c0).push(x@));
    assert(lv.subrange(a, j + 1) =~= lv.subrange(a, j).push(lv[j]));
    assert(stripped_texts(lv.subrange(a, j).push(lv[j]), n) =~= stripped_texts(lv.subrange(a, j), n).push(x@));
}

proof fn lemma_texts_push(lv: Seq<LV>, a: int, j: int, c0: Seq<Vec<char>>, x: Vec<char>)
    requires
        0 <= a <= j < lv.len(),
        lines_view(c0) == texts_of(lv.subrange(a, j)),
        x@ == lv[j].0,
    ensures
        lines_view(c0.push(x)) == texts_of(lv.subrange(a, j + 1)),
{
    assert(lines_view(c0.push(x)) =~= lines_view(c0).push(x@));
    assert(lv.subrange(a, j + 1) =~= lv.subrange(a, j).push(lv[j]));
    assert(texts_of(lv.subrange(a, j).push(lv[j])) =~= texts_of(lv.subrange(a, j)).push(x@));
}

proof fn lemma_rows_push(lv: Seq<LV>, a: int, j: int, r0: Seq<Vec<Vec<char>>>, x: Vec<Vec<char>>)
    requires
        0 <= a <= j < lv.len(),
        rows_view(r0) == row_cells_of(lv.subrange(a, j)),
        lines_view(x@) == spec_row_cells(lv[j].0),
    ensures
        rows_view(r0.push(x)) == row_cells_of(lv.subrange(a, j + 1)),
{
    assert(rows_view(r0.push(x)) =~= rows_view(r0).push(lines_view(x@)));
    assert(lv.subrange(a, j + 1) =~= lv.subrange(a, j).push(lv[j]));
    assert(row_cells_of(lv.subrange(a, j).push(lv[j])) =~= row_cells_of(lv.subrange(a, j)).push(lines_view(x@)));
}

proof fn lemma_plines_empty(v: Seq<PLine>)
    requires
        v.len() == 0,
    ensures
        plines_view(v) == Seq::<LV>::empty(),
{
    assert(plines_view(v) =~= Seq::<LV>::empty());
}

proof fn lemma_plines_push(v: Seq<PLine>, l: PLine)
    ensures
        plines_view(v.push(l)) == plines_view(v).push(pline_view(l)),
{
    assert(plines_view(v.push(l)) =~= plines_view(v).push(pline_view(l)));
}

/// The fenced code block opened on line `i`, and the line after it.
fn fence_block_exec(lines: &Vec<PLine>, i: usize, fc: char, flen: usize, info: Vec<char>) -> (r: (Block, usize))
    requires
        i < lines@.len(),
    ensures
        i < r.1 <= lines@.len(),
        (mb_view(r.0), r.1 as int) == fence_block(plines_view(lines@), i as int, fc, flen, info@),
{
    let ghost lv = plines_view(lines@);
    let n = lines.len();
    let fi = indent_rel(&lines[i]);
    let fence_indent = if fi < 3 {
        fi
    } else {
        3
    };
    let mut j = i + 1;
    let mut content: Vec<Vec<char>> = Vec::new();
    while j < lines.len() && !parse_fence_close(&lines[j], fc, flen)
        invariant
            i < j <= lines@.len(),
            lv == plines_view(lines@),
            fence_end(lv, j as int, fc, flen) == fence_end(lv, i + 1, fc, flen),
            lines_view(content@) == stripped_texts(lv.subrange(i + 1, j as int), fence_indent as int),
        decreases lines@.len() - j,
    {
        let ghost c0 = content@;
        assert(lv[j as int] == pline_view(lines@[j as int]));
        let x = strip_cols(&lines[j], fence_indent).s;
        proof {
            lemma_stripped_push(lv, i + 1, j as int, fence_indent as int, c0, x);
        }
        content.push(x);
        j += 1;
    }
    if j < lines.len() {
        j += 1;
    }
    (Block::FencedCode { info, lines: content, fence_char: fc, fence_len: flen }, j)
}

/// The HTML block of type `htype` that starts on line `i`, and the line
/// after it.
fn html_block_exec(lines: &Vec<PLine>, i: usize, htype: u8) -> (r: (Block, usize))
    requires
        i < lines@.len(),
    ensures
        i < r.1 <= lines@.len(),
        r.1 as int == html_block_end_line(plines_view(lines@), i as int, htype),
        mb_view(r.0) == MB::HtmlBlock(texts_of(plines_view(lines@).subrange(i as int, r.1 as int))),
{
    let ghost lv = plines_view(lines@);
    let n = lines.len();
    let mut content: Vec<Vec<char>> = Vec::new();
    content.push(copy(&lines[i].s));
    let mut j = i + 1;
    assert(lv[i as int] == pline_view(lines@[i as int]));
    assert(lines_view(content@) =~= texts_of(lv.subrange(i as int, j as int)));
    if htype <= 5 {
        if !html_block_end(&lines[i].s, htype) {
            while j < lines.len() && !html_block_end(&lines[j].s, htype)
                invariant
                    i < j <= lines@.len(),
                    lv == plines_view(lines@),
                    html_end(lv, j as int, htype) == html_end(lv, i + 1, htype),
                    lines_view(content@) == texts_of(lv.subrange(i as int, j as int)),
                decreases lines@.len() - j,
            {
                let ghost c0 = content@;
                assert(lv[j as int] == pline_view(lines@[j as int]));
                let x = copy(&lines[j].s);
                proof {
                    lemma_texts_push(lv, i as int, j as int, c0, x);
                }
                content.push(x);
                j += 1;
            }
            if j < lines.len() {
                let ghost c0 = content@;
                assert(lv[j as int] == pline_view(lines@[j as int]));
                let x = copy(&lines[j].s);
                proof {
                    lemma_texts_push(lv, i as int, j as int, c0, x);
                }
                content.push(x);
                j += 1;
            }
        }
    } else {
        while j < lines.len() && !is_blank(&lines[j].s)
            invariant
                i < j <= lines@.len(),
                lv == plines_view(lines@),
                blank_end(lv, j as int) == blank_end(lv, i + 1),
                lines_view(content@) == texts_of(lv.subrange(i as int, j as int)),
            decreases lines@.len() - j,
        {
            let ghost c0 = content@;
            assert(lv[j as int] == pline_view(lines@[j as int]));
            let x = copy(&lines[j].s);
            proof {
                lemma_texts_push(lv, i as int, j as int, c0, x);
            }
            content.push(x);
            j += 1;
        }
    }
    (Block::HtmlBlock(content), j)
}

/// The indented code block starting on line `i`, and the line after it:
/// blank lines keep their stripped whitespace, trailing blank lines
/// belong to what follows.
fn code_block_exec(lines: &Vec<PLine>, i: usize) -> (r: (Block, usize))
    requires
        i < lines@.len(),
    ensures
        i < r.1 <= lines@.len(),
        (mb_view(r.0), r.1 as int) == code_block(plines_view(lines@), i as int),
{
    let ghost lv = plines_view(lines@);
    let mut j = i;
    let mut content: Vec<Vec<char>> = Vec::new();
    while j < lines.len() && (is_blank(&lines[j].s) || indent_rel(&lines[j]) >= 4)
        invariant
            i <= j <= lines@.len(),
            lv == plines_view(lines@),
            content@.len() == j - i,
            code_end(lv, j as int) == code_end(lv, i as int),
            lines_view(content@) == stripped_texts(lv.subrange(i as int, j as int), 4),
        decreases lines@.len() - j,
    {
        let ghost c0 = content@;
        assert(lv[j as int] == pline_view(lines@[j as int]));
        let x = strip_cols(&lines[j], 4).s;
        proof {
            lemma_stripped_push(lv, i as int, j as int, 4, c0, x);
        }
        content.push(x);
        j += 1;
    }
    let ghost full = lines_view(content@);
    while content.len() > 1 && is_blank(&content[content.len() - 1])
        invariant
            i <= j <= lines@.len(),
            content@.len() == j - i,
            code_trim(lines_view(content@)) == code_trim(full),
        decreases content@.len(),
    {
        let ghost c0 = content@;
        content.pop();
        assert(lines_view(content@) =~= lines_view(c0).drop_last());
        j -= 1;
    }
    if j == i {
        j += 1;
    }
    (Block::IndentedCode(content), j)
}

/// A table's body rows from line `j0`: the cells of each line until a
/// blank or lazy line or the start of another block.
fn table_rows_exec(lines: &Vec<PLine>, j0: usize) -> (r: (Vec<Vec<Vec<char>>>, usize))
    requires
        j0 <= lines@.len(),
    ensures
        j0 <= r.1 <= lines@.len(),
        r.1 as int == rows_end(plines_view(lines@), j0 as int),
        rows_view(r.0@) == row_cells_of(plines_view(lines@).subrange(j0 as int, r.1 as int)),
{
    let ghost lv = plines_view(lines@);
    let mut rows: Vec<Vec<Vec<char>>> = Vec::new();
    let mut j = j0;
    while j < lines.len() && !is_blank(&lines[j].s) && !lines[j].lazy && !is_interrupting_block_start(
        &lines[j],
        false,
    )
        invariant
            j0 <= j <= lines@.len(),
            lv == plines_view(lines@),
            rows_end(lv, j as int) == rows_end(lv, j0 as int),
            rows_view(rows@) == row_cells_of(lv.subrange(j0 as int, j as int)),
        decreases lines@.len() - j,
    {
        let ghost r0 = rows@;
        assert(lv[j as int] == pline_view(lines@[j as int]));
        let cells = split_row(&lines[j].s);
        assert(lines_view(cells@) =~= spec_row_cells(lines@[j as int].s@));
        proof {
            lemma_rows_push(lv, j0 as int, j as int, r0, cells);
        }
        rows.push(cells);
        j += 1;
    }
    (rows, j)
}

/// A blockquote's inner lines from line `i` (markers removed, lazy
/// continuations marked, trailing empty lines dropped), and the line
/// after it.
fn quote_lines(lines: &Vec<PLine>, i: usize) -> (r: (Vec<PLine>, usize))
    requires
        i < lines@.len(),
    ensures
        i < r.1 <= lines@.len(),
        plines_view(r.0@) == drop_trailing_empty(bq_gather(plines_view(lines@), i as int, Seq::empty()).1),
        r.1 as int == (if bq_gather(plines_view(lines@), i as int, Seq::empty()).0 == i {
            i + 1
        } else {
            bq_gather(plines_view(lines@), i as int, Seq::empty()).0
        }),
{
    let ghost lv = plines_view(lines@);
    let mut inner: Vec<PLine> = Vec::new();
    let mut j = i;
    assert(plines_view(inner@) =~= Seq::<LV>::empty());
    while j < lines.len()
        invariant
            i <= j <= lines@.len(),
            lv == plines_view(lines@),
            bq_gather(lv, j as int, plines_view(inner@)) == bq_gather(lv, i as int, Seq::empty()),
        decreases lines@.len() - j,
    {
        match parse_blockquote_marker(&lines[j]) {
            Some(stripped) => {
                proof {
                    lemma_plines_push(inner@, stripped);
                }
                inner.push(stripped);
                j += 1;
            },
            None => {
                // A blank line without `>` ends the quote.
                if is_blank(&lines[j].s) {
                    break;
                }
                if inner.len() > 0 && inner_para_open(&inner[inner.len() - 1])
                    && !is_interrupting_block_start(&lines[j], true) {
                    let l = PLine { s: copy(&lines[j].s), phase: lines[j].phase, lazy: true };
                    proof {
                        lemma_plines_push(inner@, l);
                    }
                    inner.push(l);
                    j += 1;
                } else {
                    break;
                }
            },
        }
    }
    let ghost g = bq_gather(lv, i as int, Seq::empty());
    assert(g == (j as int, plines_view(inner@)));
    let e = if j == i {
        j + 1
    } else {
        j
    };
    while inner.len() > 0 && inner[inner.len() - 1].s.len() == 0
        invariant
            drop_trailing_empty(plines_view(inner@)) == drop_trailing_empty(g.1),
        decreases inner@.len(),
    {
        let ghost v0 = inner@;
        inner.pop();
        assert(plines_view(inner@) =~= plines_view(v0).drop_last());
    }
    (inner, e)
}

/// The lines joined with `\n`.
pub(crate) fn join_lines(v: &Vec<Vec<char>>) -> (r: Vec<char>)
    ensures
        r@ == crate::html_to_markdown::join_nl(v@.map_values(|l: Vec<char>| l@)),
{
    let ghost ls = v@.map_values(|l: Vec<char>| l@);
    let mut r: Vec<char> = Vec::new();
    let mut k: usize = 0;
    while k < v.len()
        invariant
            k <= v@.len(),
            ls == v@.map_values(|l: Vec<char>| l@),
            r@ == crate::html_to_markdown::join_nl(ls.take(k as int)),
        decreases v@.len() - k,
    {
        if k > 0 {
            r.push('\n');
        }
        push_vec(&mut r, &v[k]);
        proof {
            assert(ls.take(k + 1).drop_last() =~= ls.take(k as int));
            if k == 0 {
                assert(ls.take(1) =~= seq![ls[0]]);
            }
        }
        assert(r@ =~= crate::html_to_markdown::join_nl(ls.take(k + 1)));
        k += 1;
    }
    assert(ls.take(v@.len() as int) =~= ls);
    r
}

/// Texts of paragraph lines joined with `\n`.
fn join_plines(v: &Vec<PLine>) -> (r: Vec<char>)
    ensures
        r@ == crate::html_to_markdown::join_nl(v@.map_values(|l: PLine| l.s@)),
{
    let ghost ls = v@.map_values(|l: PLine| l.s@);
    let mut r: Vec<char> = Vec::new();
    let mut k: usize = 0;
    while k < v.len()
        invariant
            k <= v@.len(),
            ls == v@.map_values(|l: PLine| l.s@),
            r@ == crate::html_to_markdown::join_nl(ls.take(k as int)),
        decreases v@.len() - k,
    {
        if k > 0 {
            r.push('\n');
        }
        push_vec(&mut r, &v[k].s);
        proof {
            assert(ls.take(k + 1).drop_last() =~= ls.take(k as int));
            if k == 0 {
                assert(ls.take(1) =~= seq![ls[0]]);
            }
        }
        assert(r@ =~= crate::html_to_markdown::join_nl(ls.take(k + 1)));
        k += 1;
    }
    assert(ls.take(v@.len() as int) =~= ls);
    r
}

// ---------------------------------------------------------------------------
// The block parse as a function of the line values
// ---------------------------------------------------------------------------

/// The block parser's state between two lines: the next line, the blocks
/// closed so far with their line spans, the open paragraph's lines and
/// the reference definitions known.
pub ghost struct PState {
    pub i: int,
    pub blocks: Seq<MB>,
    pub spans: Seq<(usize, usize)>,
    pub para: Seq<LV>,
    pub refs: RV,
}

/// The texts of some lines.
pub open spec fn texts_of(ls: Seq<LV>) -> Seq<Seq<char>> {
    ls.map_values(|l: LV| l.0)
}

/// The texts of some lines with up to `n` columns of indentation removed.
pub open spec fn stripped_texts(ls: Seq<LV>, n: int) -> Seq<Seq<char>> {
    ls.map_values(|l: LV| strip_view(l.0, l.1 as int, n).0)
}

/// The cells of each line, read as a table row.
pub open spec fn row_cells_of(ls: Seq<LV>) -> Seq<Seq<Seq<char>>> {
    ls.map_values(|l: LV| spec_row_cells(l.0))
}

/// A line with up to `n` columns of indentation removed.
pub open spec fn strip_lv(l: LV, n: int) -> LV {
    let v = strip_view(l.0, l.1 as int, n);
    (v.0, v.1 as usize, l.2)
}

/// Columns of indentation of a line.
pub open spec fn lv_indent(l: LV) -> int {
    ws_scan(l.0, l.1 as int, 0, 0).1
}

/// The blocks with the open paragraph, if any, closed.
pub open spec fn flush_blocks(bs: Seq<MB>, para: Seq<LV>) -> Seq<MB> {
    if para.len() > 0 {
        bs.push(MB::Paragraph(texts_of(para)))
    } else {
        bs
    }
}

/// The spans with that of the open paragraph, if any, ending before line
/// `end`.
pub open spec fn flush_spans(sp: Seq<(usize, usize)>, para: Seq<LV>, end: int) -> Seq<(usize, usize)> {
    if para.len() > 0 {
        sp.push(((end - para.len()) as usize, end as usize))
    } else {
        sp
    }
}

/// The state with its open paragraph, if any, closed before line `end`.
pub open spec fn flushed(st: PState, end: int) -> PState {
    PState {
        i: st.i,
        blocks: flush_blocks(st.blocks, st.para),
        spans: flush_spans(st.spans, st.para, end),
        para: Seq::empty(),
        refs: st.refs,
    }
}

/// The parser's state as values.
pub open spec fn ps_of(i: int, blocks: Seq<Block>, spans: Seq<(usize, usize)>, para: Seq<PLine>, refs: RefDefs) -> PState {
    PState { i, blocks: mbs_view(blocks), spans, para: plines_view(para), refs: refs_view(refs) }
}

/// Lists of lines as values.
pub open spec fn vv_view(x: Seq<Vec<PLine>>) -> Seq<Seq<LV>> {
    x.map_values(|v: Vec<PLine>| plines_view(v@))
}

/// The state with block `b` over lines `[from, to)` added; the next line
/// is `to`.
pub open spec fn pushed(st: PState, b: MB, from: int, to: int) -> PState {
    PState {
        i: to,
        blocks: st.blocks.push(b),
        spans: st.spans.push((from as usize, to as usize)),
        para: st.para,
        refs: st.refs,
    }
}

/// The first line from `j` that closes a fence of `fc` at least `flen`
/// long (or the end).
pub open spec fn fence_end(lines: Seq<LV>, j: int, fc: char, flen: usize) -> int
    decreases lines.len() - j,
{
    if j < 0 || j >= lines.len() || spec_fence_close(lines[j].0, lines[j].1 as int, fc, flen as int) {
        j
    } else {
        fence_end(lines, j + 1, fc, flen)
    }
}

/// The first line from `j` that ends an HTML block of type `t` (or the
/// end).
pub open spec fn html_end(lines: Seq<LV>, j: int, t: u8) -> int
    decreases lines.len() - j,
{
    if j < 0 || j >= lines.len() || spec_html_block_end(lines[j].0, t) {
        j
    } else {
        html_end(lines, j + 1, t)
    }
}

/// The first blank line from `j` (or the end).
pub open spec fn blank_end(lines: Seq<LV>, j: int) -> int
    decreases lines.len() - j,
{
    if j < 0 || j >= lines.len() || spec_is_blank(lines[j].0) {
        j
    } else {
        blank_end(lines, j + 1)
    }
}

/// The first line from `j` that is not blank (or the end).
pub open spec fn nonblank_from(lines: Seq<LV>, j: int) -> int
    decreases lines.len() - j,
{
    if j < 0 || j >= lines.len() || !spec_is_blank(lines[j].0) {
        j
    } else {
        nonblank_from(lines, j + 1)
    }
}

/// The first line from `j` that is neither blank nor indented four
/// columns (or the end).
pub open spec fn code_end(lines: Seq<LV>, j: int) -> int
    decreases lines.len() - j,
{
    if j < 0 || j >= lines.len() || !(spec_is_blank(lines[j].0) || lv_indent(lines[j]) >= 4) {
        j
    } else {
        code_end(lines, j + 1)
    }
}

/// The first line from `j` that ends a table body: blank, lazy, or the
/// start of another block (or the end).
pub open spec fn rows_end(lines: Seq<LV>, j: int) -> int
    decreases lines.len() - j,
{
    if j < 0 || j >= lines.len() || spec_is_blank(lines[j].0) || lines[j].2 || spec_interrupting(
        lines[j].0,
        lines[j].1 as int,
        false,
    ) {
        j
    } else {
        rows_end(lines, j + 1)
    }
}

/// The fenced code block opened on line `i`, and the line after it.
pub open spec fn fence_block(lines: Seq<LV>, i: int, fc: char, flen: usize, info: Seq<char>) -> (MB, int) {
    let fi = lv_indent(lines[i]);
    let indent = if fi < 3 {
        fi
    } else {
        3
    };
    let e = fence_end(lines, i + 1, fc, flen);
    (
        MB::FencedCode {
            info,
            lines: stripped_texts(lines.subrange(i + 1, e), indent),
            fence_char: fc,
            fence_len: flen,
        },
        if e < lines.len() {
            e + 1
        } else {
            e
        },
    )
}

/// The line after an HTML block of type `t` that starts on line `i`.
pub open spec fn html_block_end_line(lines: Seq<LV>, i: int, t: u8) -> int {
    if t <= 5 {
        if spec_html_block_end(lines[i].0, t) {
            i + 1
        } else {
            let e = html_end(lines, i + 1, t);
            if e < lines.len() {
                e + 1
            } else {
                e
            }
        }
    } else {
        blank_end(lines, i + 1)
    }
}

/// Code lines without trailing blank ones (the first always stays).
pub open spec fn code_trim(c: Seq<Seq<char>>) -> Seq<Seq<char>>
    decreases c.len(),
{
    if c.len() > 1 && spec_is_blank(c.last()) {
        code_trim(c.drop_last())
    } else {
        c
    }
}

/// The indented code block starting on line `i`, and the line after it.
pub open spec fn code_block(lines: Seq<LV>, i: int) -> (MB, int) {
    let c = code_trim(stripped_texts(lines.subrange(i, code_end(lines, i)), 4));
    (MB::IndentedCode(c), if c.len() == 0 {
        i + 1
    } else {
        i + c.len()
    })
}

/// A blockquote's lines from line `i`, appended to `inner`: marked lines
/// without their marker, then lazy paragraph continuations; the line
/// after them and the inner lines.
pub open spec fn bq_gather(lines: Seq<LV>, i: int, inner: Seq<LV>) -> (int, Seq<LV>)
    decreases lines.len() - i,
{
    if i < 0 || i >= lines.len() {
        (i, inner)
    } else {
        match spec_bq_marker(lines[i].0, lines[i].1 as int) {
            Some((rs, rp)) => bq_gather(lines, i + 1, inner.push((rs, rp as usize, false))),
            None => if !spec_is_blank(lines[i].0) && inner.len() > 0 && spec_inner_para_open(
                inner.last().0,
                inner.last().1 as int,
            ) && !spec_interrupting(lines[i].0, lines[i].1 as int, true) {
                bq_gather(lines, i + 1, inner.push((lines[i].0, lines[i].1, true)))
            } else {
                (i, inner)
            },
        }
    }
}

/// The lines without trailing empty ones.
pub open spec fn drop_trailing_empty(v: Seq<LV>) -> Seq<LV>
    decreases v.len(),
{
    if v.len() > 0 && v.last().0.len() == 0 {
        drop_trailing_empty(v.drop_last())
    } else {
        v
    }
}

/// A list marker as values: ordered, bullet, number, delimiter, content
/// indent, and whether the item is empty.
pub type LM = (bool, char, u32, char, int, bool);

pub open spec fn marker_view(m: ListMarker) -> LM {
    (m.ordered, m.bullet, m.number, m.delim, m.content_indent as int, m.empty)
}

/// The marker continues a list of this type.
pub open spec fn same_type(m: LM, ordered: bool, delim: char, bullet: char) -> bool {
    m.0 == ordered && (if ordered {
        m.3 == delim
    } else {
        m.1 == bullet
    })
}

/// An item's first line after its marker.
pub open spec fn first_content(l: LV, m: LM) -> LV {
    match spec_content_after(l.0, l.1 as int, m.0) {
        Some(c) => (c.0, c.1 as usize, false),
        None => (Seq::empty(), 0, false),
    }
}

/// Every line is empty.
pub open spec fn all_empty_lv(v: Seq<LV>) -> bool {
    forall|k: int| 0 <= k < v.len() ==> (#[trigger] v[k]).0.len() == 0
}

/// An empty line.
pub open spec fn empty_lv() -> LV {
    (Seq::empty(), 0, false)
}

/// The last line before `k` with text.
pub open spec fn last_nonempty(v: Seq<LV>, k: int) -> Option<int>
    decreases k,
{
    if k <= 0 || k > v.len() {
        None
    } else if v[k - 1].0.len() > 0 {
        Some(k - 1)
    } else {
        last_nonempty(v, k - 1)
    }
}

/// The last line with text leaves a paragraph open.
pub open spec fn lv_para_open(v: Seq<LV>) -> bool {
    match last_nonempty(v, v.len() as int) {
        Some(j) => spec_inner_para_open(v[j].0, v[j].1 as int),
        None => false,
    }
}

/// The list parser's state between two lines: the next line, the items
/// gathered, whether a blank line separated two items, the current
/// item's content column and its lines.
pub ghost struct LG {
    pub i: int,
    pub items: Seq<Seq<LV>>,
    pub blank_between: bool,
    pub ci: int,
    pub cur: Seq<LV>,
}

/// One line of a list of this type; `None` where the list ends.
pub open spec fn lg_step(lines: Seq<LV>, ordered: bool, delim: char, bullet: char, g: LG) -> Option<LG> {
    let i = g.i;
    let l = lines[i];
    if spec_is_blank(l.0) {
        let j = nonblank_from(lines, i);
        if j >= lines.len() {
            None
        } else {
            let lj = lines[j];
            let next = match spec_list_marker(lj.0, lj.1 as int) {
                Some(m2) => if !spec_thematic_break(lj.0, lj.1 as int) && same_type(m2, ordered, delim, bullet)
                    && lv_indent(lj) < g.ci {
                    Some(m2)
                } else {
                    None
                },
                None => None,
            };
            match next {
                Some(m2) => Some(
                    LG {
                        i: j + 1,
                        items: g.items.push(g.cur.push(empty_lv())),
                        blank_between: true,
                        ci: m2.4,
                        cur: seq![first_content(lj, m2)],
                    },
                ),
                None => if all_empty_lv(g.cur) {
                    None
                } else if lv_indent(lj) >= g.ci {
                    Some(LG { i: i + 1, cur: g.cur.push(empty_lv()), ..g })
                } else {
                    None
                },
            }
        }
    } else {
        let mk = if !spec_thematic_break(l.0, l.1 as int) {
            spec_list_marker(l.0, l.1 as int)
        } else {
            None
        };
        match mk {
            Some(m2) => if same_type(m2, ordered, delim, bullet) && lv_indent(l) < g.ci {
                Some(
                    LG {
                        i: i + 1,
                        items: g.items.push(g.cur),
                        blank_between: g.blank_between,
                        ci: m2.4,
                        cur: seq![first_content(l, m2)],
                    },
                )
            } else if lv_indent(l) >= g.ci {
                Some(LG { i: i + 1, cur: g.cur.push(strip_lv(l, g.ci)), ..g })
            } else {
                None
            },
            None => if lv_indent(l) >= g.ci {
                Some(LG { i: i + 1, cur: g.cur.push(strip_lv(l, g.ci)), ..g })
            } else if lv_para_open(g.cur) && !spec_interrupting(l.0, l.1 as int, true) {
                let v = strip_lv(l, 3);
                Some(LG { i: i + 1, cur: g.cur.push((v.0, v.1, true)), ..g })
            } else {
                None
            },
        }
    }
}

/// The list's lines gathered from state `g` on.
pub open spec fn lg_run(lines: Seq<LV>, ordered: bool, delim: char, bullet: char, g: LG) -> LG
    decreases lines.len() - g.i,
{
    if g.i < 0 || g.i >= lines.len() {
        g
    } else {
        match lg_step(lines, ordered, delim, bullet, g) {
            None => g,
            Some(n) => if n.i > g.i {
                lg_run(lines, ordered, delim, bullet, n)
            } else {
                n
            },
        }
    }
}

/// The first line from `a` with text (or the end).
pub open spec fn first_nonempty_from(v: Seq<LV>, a: int) -> int
    decreases v.len() - a,
{
    if a < 0 || a >= v.len() || v[a].0.len() > 0 {
        a
    } else {
        first_nonempty_from(v, a + 1)
    }
}

/// One past the last line before `b` with text, not below `a`.
pub open spec fn end_nonempty(v: Seq<LV>, a: int, b: int) -> int
    decreases b,
{
    if b <= a || b <= 0 || b > v.len() || v[b - 1].0.len() > 0 {
        b
    } else {
        end_nonempty(v, a, b - 1)
    }
}

/// The lines without leading and trailing empty ones.
pub open spec fn trimmed_lines(v: Seq<LV>) -> Seq<LV> {
    let a = first_nonempty_from(v, 0);
    v.subrange(a, end_nonempty(v, a, v.len() as int))
}

/// Line `idx` lies in one of the spans.
pub open spec fn covered(spans: Seq<(usize, usize)>, idx: int) -> bool {
    exists|q: int| 0 <= q < spans.len() && #[trigger] spans[q].0 <= idx && idx < spans[q].1
}

/// Some empty line lies in no block's span (a blank line directly inside
/// an item).
pub open spec fn direct_blank(r: Seq<LV>, spans: Seq<(usize, usize)>) -> bool {
    exists|idx: int| 0 <= idx < r.len() && (#[trigger] r[idx]).0.len() == 0 && !covered(spans, idx)
}

/// The blocks of items `q..` appended to `acc`, whether the list is
/// loose, and the reference definitions after them.
pub open spec fn spec_items(raw: Seq<Seq<LV>>, q: int, loose: bool, acc: Seq<Seq<MB>>, refs: RV, fuel: nat) -> (
    Seq<Seq<MB>>,
    bool,
    RV,
)
    decreases fuel, 0int, raw.len() - q,
{
    if q < 0 || q >= raw.len() || fuel == 0 {
        (acc, loose, refs)
    } else {
        let r = trimmed_lines(raw[q]);
        let p = spec_parse(r, refs, (fuel - 1) as nat);
        spec_items(raw, q + 1, loose || direct_blank(r, p.1), acc.push(p.0), p.2, fuel)
    }
}

/// The list whose first marker `m` is on line `start`: the list block,
/// the line after it and the reference definitions after it.
pub open spec fn spec_list(lines: Seq<LV>, start: int, m: LM, refs: RV, fuel: nat) -> (MB, int, RV)
    decreases fuel, 1int, 0int,
{
    let g = lg_run(
        lines,
        m.0,
        m.3,
        m.1,
        LG {
            i: start + 1,
            items: Seq::empty(),
            blank_between: false,
            ci: m.4,
            cur: seq![first_content(lines[start], m)],
        },
    );
    let it = spec_items(g.items.push(g.cur), 0, g.blank_between, Seq::empty(), refs, fuel);
    (
        MB::List { ordered: m.0, start: m.2, tight: !it.1, items: it.0, bullet: m.1, delimiter: m.3 },
        g.i,
        it.2,
    )
}

/// One step of the block parser on line `st.i`, after the blank, lazy,
/// fence, HTML and ATX cases.
pub open spec fn step_rest(lines: Seq<LV>, st: PState, fuel: nat) -> PState
    decreases fuel, 2int, 0int,
{
    let i = st.i;
    let l = lines[i];
    let np = st.para.len() > 0;
    let setext = if np {
        spec_setext(l.0, l.1 as int)
    } else {
        None
    };
    let table = if np {
        match spec_delim_row(l.0, l.1 as int) {
            Some(al) => if spec_row_cells(st.para.last().0).len() == al.len() {
                Some(al)
            } else {
                None
            },
            None => None,
        }
    } else {
        None
    };
    let lm = if fuel > 0 {
        spec_list_marker(l.0, l.1 as int)
    } else {
        None
    };
    let list_ok = match lm {
        Some(m) => !((m.0 && m.2 != 1 && np) || (m.5 && np)),
        None => false,
    };
    let rd = if !np {
        spec_refdef(lines, i)
    } else {
        None
    };
    if setext is Some {
        let level = setext->0;
        PState {
            i: i + 1,
            blocks: st.blocks.push(
                MB::Heading(
                    level,
                    crate::html_to_markdown::join_nl(texts_of(st.para)),
                    crate::ast::HeadingKind::Setext {
                        marker: if level == 1 {
                            '='
                        } else {
                            '-'
                        },
                    },
                ),
            ),
            spans: st.spans.push(((i - st.para.len()) as usize, (i + 1) as usize)),
            para: Seq::empty(),
            refs: st.refs,
        }
    } else if table is Some {
        let f = flushed(PState { para: st.para.drop_last(), ..st }, i - 1);
        let e = rows_end(lines, i + 1);
        pushed(
            f,
            MB::Table {
                header: spec_row_cells(st.para.last().0),
                aligns: table->0,
                rows: row_cells_of(lines.subrange(i + 1, e)),
            },
            i - 1,
            e,
        )
    } else if spec_thematic_break(l.0, l.1 as int) {
        pushed(flushed(st, i), MB::ThematicBreak(spec_break_marker(l.0, l.1 as int)), i, i + 1)
    } else if !np && lv_indent(l) >= 4 {
        let cb = code_block(lines, i);
        pushed(st, cb.0, i, cb.1)
    } else if fuel > 0 && spec_bq_marker(l.0, l.1 as int) is Some {
        let g = bq_gather(lines, i, Seq::empty());
        let e = if g.0 == i {
            i + 1
        } else {
            g.0
        };
        let f = flushed(st, i);
        let c = spec_parse(drop_trailing_empty(g.1), f.refs, (fuel - 1) as nat);
        PState {
            i: e,
            blocks: f.blocks.push(MB::BlockQuote(c.0)),
            spans: f.spans.push((i as usize, e as usize)),
            para: f.para,
            refs: c.2,
        }
    } else if list_ok {
        let f = flushed(st, i);
        let sl = spec_list(lines, i, lm->0, f.refs, fuel);
        PState {
            i: sl.1,
            blocks: f.blocks.push(sl.0),
            spans: f.spans.push((i as usize, sl.1 as usize)),
            para: f.para,
            refs: sl.2,
        }
    } else if rd is Some {
        let d = rd->0;
        PState { i: i + d.3, refs: rv_insert(st.refs, d.0, d.1, d.2), ..st }
    } else {
        let v = strip_lv(l, usize::MAX as int);
        PState { i: i + 1, para: st.para.push((v.0, v.1, l.2)), ..st }
    }
}

/// One step of the block parser on line `st.i`.
pub open spec fn spec_step(lines: Seq<LV>, st: PState, fuel: nat) -> PState
    decreases fuel, 3int, 0int,
{
    let i = st.i;
    let l = lines[i];
    if spec_is_blank(l.0) {
        PState { i: i + 1, ..flushed(st, i) }
    } else if l.2 {
        let v = strip_lv(l, usize::MAX as int);
        PState { i: i + 1, para: st.para.push((v.0, v.1, true)), ..st }
    } else {
        match spec_fence_open(l.0, l.1 as int) {
            Some((fc, flen, info)) => {
                let fb = fence_block(lines, i, fc, flen, info);
                pushed(flushed(st, i), fb.0, i, fb.1)
            },
            None => match spec_html_block_start(l.0, l.1 as int, st.para.len() > 0) {
                Some(t) => {
                    let e = html_block_end_line(lines, i, t);
                    pushed(flushed(st, i), MB::HtmlBlock(texts_of(lines.subrange(i, e))), i, e)
                },
                None => match spec_atx(l.0, l.1 as int) {
                    Some((level, content, closing)) => pushed(
                        flushed(st, i),
                        MB::Heading(level, content, crate::ast::HeadingKind::Atx { closing }),
                        i,
                        i + 1,
                    ),
                    None => step_rest(lines, st, fuel),
                },
            },
        }
    }
}

/// The block parser from state `st` to the end of the lines.
pub open spec fn bloop(lines: Seq<LV>, st: PState, fuel: nat) -> PState
    decreases fuel, 4int, lines.len() - st.i,
{
    if st.i < 0 || st.i >= lines.len() {
        flushed(st, st.i)
    } else {
        let n = spec_step(lines, st, fuel);
        if st.i < n.i <= lines.len() {
            bloop(lines, n, fuel)
        } else {
            flushed(n, n.i)
        }
    }
}

/// The blocks of some lines with their line spans, and the reference
/// definitions after them, starting from `refs`; `fuel` bounds the
/// nesting of quotes and lists.
pub open spec fn spec_parse(lines: Seq<LV>, refs: RV, fuel: nat) -> (Seq<MB>, Seq<(usize, usize)>, RV)
    decreases fuel, 5int, 0int,
{
    let f = bloop(
        lines,
        PState { i: 0, blocks: Seq::empty(), spans: Seq::empty(), para: Seq::empty(), refs },
        fuel,
    );
    (f.blocks, f.spans, f.refs)
}

/// Parse blocks, also returning each top-level block's line span
/// `[start, end)` (used for tight/loose list detection). `fuel` bounds
/// the nesting of quotes and lists; each level of nesting consumes a
/// marker character, so callers pass more fuel than there are characters.
/// Reference definitions found are added to `refs`, the first for a
/// label winning.
#[verifier::spinoff_prover]
#[verifier::rlimit(100)]
fn parse_blocks_spanned(lines: &Vec<PLine>, refs: &mut RefDefs, fuel: usize) -> (r: (
    Vec<Block>,
    Vec<(usize, usize)>,
))
    ensures
        r.0@.len() == r.1@.len(),
        (mbs_view(r.0@), r.1@, refs_view(*final(refs))) == spec_parse(
            plines_view(lines@),
            refs_view(*old(refs)),
            fuel as nat,
        ),
    decreases fuel, 1usize,
{
    let ghost lv = plines_view(lines@);
    let ghost st_init = PState {
        i: 0,
        blocks: Seq::empty(),
        spans: Seq::empty(),
        para: Seq::empty(),
        refs: refs_view(*refs),
    };
    let mut blocks: Vec<Block> = Vec::new();
    let mut spans: Vec<(usize, usize)> = Vec::new();
    let mut para: Vec<PLine> = Vec::new();
    let mut i: usize = 0;
    assert(ps_of(0, blocks@, spans@, para@, *refs) =~= st_init) by {
        assert(mbs_view(blocks@) =~= Seq::<MB>::empty());
        assert(plines_view(para@) =~= Seq::<LV>::empty());
    }
    while i < lines.len()
        invariant
            i <= lines@.len(),
            para@.len() <= i,
            blocks@.len() == spans@.len(),
            lv == plines_view(lines@),
            bloop(lv, ps_of(i as int, blocks@, spans@, para@, *refs), fuel as nat) == bloop(lv, st_init, fuel as nat),
        decreases lines@.len() - i,
    {
        let ghost st0 = ps_of(i as int, blocks@, spans@, para@, *refs);
        let ghost l = lv[i as int];
        assert(l == pline_view(lines@[i as int]));
        // A blank line ends a paragraph.
        if is_blank(&lines[i].s) {
            flush_para(&mut blocks, &mut spans, &mut para, i);
            i += 1;
            assert(ps_of(i as int, blocks@, spans@, para@, *refs) =~= spec_step(lv, st0, fuel as nat));
            continue;
        }
        // Lazy continuation lines always join the paragraph (the parent
        // container vetted them); leading whitespace is stripped entirely.
        if lines[i].lazy {
            let all = usize::MAX;
            let stripped = strip_cols(&lines[i], all);
            let pl = PLine { s: stripped.s, phase: stripped.phase, lazy: true };
            proof {
                lemma_plines_push(para@, pl);
            }
            para.push(pl);
            i += 1;
            assert(ps_of(i as int, blocks@, spans@, para@, *refs) =~= spec_step(lv, st0, fuel as nat));
            continue;
        }
        // Fenced code (content dedents by the opening fence's indent).
        match parse_fence_open(&lines[i]) {
            Some((fc, flen, info)) => {
                let bs = i;
                flush_para(&mut blocks, &mut spans, &mut para, i);
                let (b, e) = fence_block_exec(lines, i, fc, flen, info);
                push_block(&mut blocks, &mut spans, b, bs, e);
                i = e;
                assert(ps_of(i as int, blocks@, spans@, para@, *refs) =~= spec_step(lv, st0, fuel as nat));
                continue;
            },
            None => {},
        }
        // HTML block.
        match html_block_start(&lines[i], para.len() > 0) {
            Some(htype) => {
                let bs = i;
                flush_para(&mut blocks, &mut spans, &mut para, i);
                let (b, e) = html_block_exec(lines, i, htype);
                push_block(&mut blocks, &mut spans, b, bs, e);
                i = e;
                assert(ps_of(i as int, blocks@, spans@, para@, *refs) =~= spec_step(lv, st0, fuel as nat));
                continue;
            },
            None => {},
        }
        // ATX heading.
        match parse_atx(&lines[i]) {
            Some((level, content, closing)) => {
                flush_para(&mut blocks, &mut spans, &mut para, i);
                push_block(
                    &mut blocks,
                    &mut spans,
                    Block::Heading(level, content, crate::ast::HeadingKind::Atx { closing }),
                    i,
                    i + 1,
                );
                i += 1;
                assert(ps_of(i as int, blocks@, spans@, para@, *refs) =~= spec_step(lv, st0, fuel as nat));
                continue;
            },
            None => {},
        }
        assert(spec_step(lv, st0, fuel as nat) == step_rest(lv, st0, fuel as nat));
        // Setext underline (needs an open paragraph; a lazy line never
        // reaches here).
        if para.len() > 0 {
            match parse_setext(&lines[i]) {
                Some(level) => {
                    let ps = i - para.len();
                    let text = join_plines(&para);
                    assert(para@.map_values(|l: PLine| l.s@) =~= texts_of(plines_view(para@)));
                    para.clear();
                    let marker = if level == 1 {
                        '='
                    } else {
                        '-'
                    };
                    push_block(
                        &mut blocks,
                        &mut spans,
                        Block::Heading(level, text, crate::ast::HeadingKind::Setext { marker }),
                        ps,
                        i + 1,
                    );
                    i += 1;
                    assert(ps_of(i as int, blocks@, spans@, para@, *refs) =~= spec_step(lv, st0, fuel as nat));
                    continue;
                },
                None => {},
            }
        }
        // Pipe table: the paragraph's last line is the header row and this
        // line a delimiter row with as many cells. Earlier paragraph lines
        // stay a paragraph; body rows run until a blank line or a line
        // that starts another block.
        if para.len() > 0 {
            match delimiter_row(&lines[i]) {
                Some(aligns) => {
                    let header = split_row(&para[para.len() - 1].s);
                    if header.len() == aligns.len() {
                        assert(lines_view(header@) =~= spec_row_cells(st0.para.last().0));
                        let hs = i - 1;
                        let ghost p0 = para@;
                        let _ = para.pop();
                        assert(plines_view(para@) =~= plines_view(p0).drop_last());
                        flush_para(&mut blocks, &mut spans, &mut para, hs);
                        let (rows, e) = table_rows_exec(lines, i + 1);
                        push_block(&mut blocks, &mut spans, Block::Table { header, aligns, rows }, hs, e);
                        i = e;
                        assert(ps_of(i as int, blocks@, spans@, para@, *refs) =~= spec_step(lv, st0, fuel as nat));
                        continue;
                    }
                },
                None => {},
            }
        }
        // Thematic break.
        if is_thematic_break(&lines[i]) {
            flush_para(&mut blocks, &mut spans, &mut para, i);
            push_block(&mut blocks, &mut spans, Block::ThematicBreak(break_marker(&lines[i])), i, i + 1);
            i += 1;
            assert(ps_of(i as int, blocks@, spans@, para@, *refs) =~= spec_step(lv, st0, fuel as nat));
            continue;
        }
        // Indented code (cannot interrupt a paragraph).
        if para.len() == 0 && indent_rel(&lines[i]) >= 4 {
            let bs = i;
            let (b, e) = code_block_exec(lines, i);
            push_block(&mut blocks, &mut spans, b, bs, e);
            i = e;
            assert(ps_of(i as int, blocks@, spans@, para@, *refs) =~= spec_step(lv, st0, fuel as nat));
            continue;
        }
        // Blockquote (gathered with lazy continuation).
        if fuel > 0 && parse_blockquote_marker(&lines[i]).is_some() {
            let bs = i;
            flush_para(&mut blocks, &mut spans, &mut para, i);
            let (inner, e) = quote_lines(lines, i);
            let children = parse_blocks_spanned(&inner, refs, fuel - 1).0;
            push_block(&mut blocks, &mut spans, Block::BlockQuote(children), bs, e);
            i = e;
            assert(ps_of(i as int, blocks@, spans@, para@, *refs) =~= spec_step(lv, st0, fuel as nat));
            continue;
        }
        // List (empty items and ordered starts other than 1 cannot
        // interrupt a paragraph).
        if fuel > 0 {
            match parse_list_marker(&lines[i]) {
                Some(m) => {
                    if !((m.ordered && m.number != 1 && para.len() > 0) || (m.empty && para.len()
                        > 0)) {
                        flush_para(&mut blocks, &mut spans, &mut para, i);
                        let (list_block, next_i) = parse_list(lines, i, m, refs, fuel);
                        push_block(&mut blocks, &mut spans, list_block, i, next_i);
                        i = next_i;
                        assert(ps_of(i as int, blocks@, spans@, para@, *refs) =~= spec_step(lv, st0, fuel as nat));
                        continue;
                    }
                },
                None => {},
            }
        }
        // Reference definition (cannot interrupt a paragraph).
        if para.len() == 0 {
            match try_refdef(lines, i) {
                Some((key, dest, title, consumed)) => {
                    refs.insert_first(key, dest, title);
                    i += consumed;
                    assert(ps_of(i as int, blocks@, spans@, para@, *refs) =~= spec_step(lv, st0, fuel as nat));
                    continue;
                },
                None => {},
            }
        }
        // Paragraph continuation: leading whitespace is stripped entirely.
        let all = usize::MAX;
        let stripped = strip_cols(&lines[i], all);
        let pl = PLine { s: stripped.s, phase: stripped.phase, lazy: lines[i].lazy };
        proof {
            lemma_plines_push(para@, pl);
        }
        para.push(pl);
        i += 1;
        assert(ps_of(i as int, blocks@, spans@, para@, *refs) =~= spec_step(lv, st0, fuel as nat));
    }
    let ghost stf = ps_of(i as int, blocks@, spans@, para@, *refs);
    flush_para(&mut blocks, &mut spans, &mut para, i);
    assert(ps_of(i as int, blocks@, spans@, para@, *refs) =~= flushed(stf, i as int));
    (blocks, spans)
}

/// Content of an item's first line.
fn first_line_content(line: &PLine, m: &ListMarker) -> (r: PLine)
    ensures
        !r.lazy,
        (r.s@, r.phase as int) == (match spec_content_after(line.s@, line.phase as int, m.ordered) {
            Some(c) => c,
            None => (Seq::<char>::empty(), 0int),
        }),
{
    match list_content_after(line, m) {
        Some(c) => c,
        None => PLine { s: Vec::new(), phase: 0, lazy: false },
    }
}

/// Same list type: same bullet, or ordered with the same delimiter.
fn same_list_type(m: &ListMarker, ordered: bool, delim: char, bullet: char) -> (r: bool)
    ensures
        r == same_type(marker_view(*m), ordered, delim, bullet),
{
    m.ordered == ordered && (if ordered {
        m.delim == delim
    } else {
        m.bullet == bullet
    })
}

/// Every line of the item so far is empty.
fn all_empty(v: &Vec<PLine>) -> (r: bool)
    ensures
        r == all_empty_lv(plines_view(v@)),
{
    let ghost lv = plines_view(v@);
    let mut k: usize = 0;
    while k < v.len()
        invariant
            k <= v@.len(),
            lv == plines_view(v@),
            forall|j: int| 0 <= j < k ==> (#[trigger] lv[j]).0.len() == 0,
        decreases v@.len() - k,
    {
        assert(lv[k as int] == pline_view(v@[k as int]));
        if v[k].s.len() > 0 {
            return false;
        }
        k += 1;
    }
    true
}

/// The last non-empty line leaves a paragraph open.
fn last_para_open(v: &Vec<PLine>) -> (r: bool)
    ensures
        r == lv_para_open(plines_view(v@)),
{
    let ghost lv = plines_view(v@);
    let mut k = v.len();
    while k > 0
        invariant
            k <= v@.len(),
            lv == plines_view(v@),
            last_nonempty(lv, k as int) == last_nonempty(lv, v@.len() as int),
        decreases k,
    {
        if v[k - 1].s.len() > 0 {
            return inner_para_open(&v[k - 1]);
        }
        k -= 1;
    }
    false
}


proof fn lemma_first_nonempty(v: Seq<LV>, a: int)
    requires
        0 <= a <= v.len(),
    ensures
        a <= first_nonempty_from(v, a) <= v.len(),
    decreases v.len() - a,
{
    if a < v.len() && v[a].0.len() == 0 {
        lemma_first_nonempty(v, a + 1);
    }
}

proof fn lemma_end_nonempty(v: Seq<LV>, a: int, b: int)
    requires
        0 <= a <= b <= v.len(),
    ensures
        a <= end_nonempty(v, a, b) <= b,
    decreases b,
{
    if b > a && v[b - 1].0.len() == 0 {
        lemma_end_nonempty(v, a, b - 1);
    }
}

/// A copy without leading and trailing empty lines.
fn trim_empty_lines(v: &Vec<PLine>) -> (r: Vec<PLine>)
    ensures
        plines_view(r@) == trimmed_lines(plines_view(v@)),
{
    let ghost lv = plines_view(v@);
    proof {
        lemma_first_nonempty(lv, 0);
    }
    let mut a: usize = 0;
    while a < v.len() && v[a].s.len() == 0
        invariant
            a <= v@.len(),
            lv == plines_view(v@),
            first_nonempty_from(lv, a as int) == first_nonempty_from(lv, 0),
        decreases v@.len() - a,
    {
        a += 1;
    }
    proof {
        lemma_end_nonempty(lv, a as int, v@.len() as int);
    }
    let mut b = v.len();
    while b > a && v[b - 1].s.len() == 0
        invariant
            a <= b <= v@.len(),
            lv == plines_view(v@),
            end_nonempty(lv, a as int, b as int) == end_nonempty(lv, a as int, v@.len() as int),
        decreases b,
    {
        b -= 1;
    }
    let mut r: Vec<PLine> = Vec::new();
    let mut k = a;
    while k < b
        invariant
            a <= k <= b <= v@.len(),
            r@.map_values(|l: PLine| pline_view(l)) == v@.subrange(a as int, k as int).map_values(|l: PLine| pline_view(l)),
        decreases b - k,
    {
        let l = copy_line(&v[k]);
        let ghost before = r@.map_values(|l: PLine| pline_view(l));
        assert(pline_view(l) == pline_view(v@[k as int]));
        r.push(l);
        assert(r@.map_values(|l: PLine| pline_view(l)) =~= before.push(pline_view(v@[k as int])));
        assert(v@.subrange(a as int, k + 1).map_values(|l: PLine| pline_view(l)) =~= v@.subrange(a as int, k as int).map_values(|l: PLine| pline_view(l)).push(pline_view(v@[k as int])));
        assert(r@.map_values(|l: PLine| pline_view(l)) =~= v@.subrange(a as int, k + 1).map_values(|l: PLine| pline_view(l)));
        k += 1;
    }
    assert(plines_view(r@) =~= trimmed_lines(lv));
    r
}

/// Some empty line is covered by no block span (a blank line directly
/// inside the item).
fn has_direct_blank(r: &Vec<PLine>, spans: &Vec<(usize, usize)>) -> (b: bool)
    ensures
        b == direct_blank(plines_view(r@), spans@),
{
    let ghost lv = plines_view(r@);
    let mut idx: usize = 0;
    while idx < r.len()
        invariant
            idx <= r@.len(),
            lv == plines_view(r@),
            forall|j: int| 0 <= j < idx ==> !((#[trigger] lv[j]).0.len() == 0 && !covered(spans@, j)),
        decreases r@.len() - idx,
    {
        if r[idx].s.len() == 0 {
            let mut covered = false;
            let mut q: usize = 0;
            while q < spans.len()
                invariant
                    q <= spans@.len(),
                    covered == exists|p: int| 0 <= p < q && #[trigger] spans@[p].0 <= idx && idx < spans@[p].1,
                decreases spans@.len() - q,
            {
                if spans[q].0 <= idx && idx < spans[q].1 {
                    covered = true;
                }
                q += 1;
            }
            if !covered {
                assert(lv[idx as int].0.len() == 0);
                return true;
            }
        }
        assert(lv[idx as int] == pline_view(r@[idx as int]));
        idx += 1;
    }
    false
}

/// The list parser's state between two lines: the items gathered,
/// whether a blank line separated two items, the current item's content
/// column and its lines.
struct ListGather {
    items: Vec<Vec<PLine>>,
    blank_between: bool,
    ci: usize,
    cur: Vec<PLine>,
}

spec fn lg_of(i: int, g: ListGather) -> LG {
    LG {
        i,
        items: vv_view(g.items@),
        blank_between: g.blank_between,
        ci: g.ci as int,
        cur: plines_view(g.cur@),
    }
}

proof fn lemma_vv_push(x: Seq<Vec<PLine>>, v: Vec<PLine>)
    ensures
        vv_view(x.push(v)) == vv_view(x).push(plines_view(v@)),
{
    assert(vv_view(x.push(v)) =~= vv_view(x).push(plines_view(v@)));
}

/// A new item's lines: its first line's content.
fn new_item(line: &PLine, m: &ListMarker) -> (r: Vec<PLine>)
    ensures
        plines_view(r@) == seq![first_content(pline_view(*line), marker_view(*m))],
{
    let mut cur: Vec<PLine> = Vec::new();
    cur.push(first_line_content(line, m));
    assert(plines_view(cur@) =~= seq![first_content(pline_view(*line), marker_view(*m))]);
    cur
}

/// The current item with one more line.
fn cur_pushed(g: ListGather, l: PLine) -> (r: ListGather)
    ensures
        r.items == g.items,
        r.blank_between == g.blank_between,
        r.ci == g.ci,
        plines_view(r.cur@) == plines_view(g.cur@).push(pline_view(l)),
{
    let mut g = g;
    proof {
        lemma_plines_push(g.cur@, l);
    }
    g.cur.push(l);
    g
}

/// The current item closed and a new one opened on `line` with marker `m`.
fn item_started(g: ListGather, line: &PLine, m: &ListMarker, blank_between: bool) -> (r: ListGather)
    ensures
        vv_view(r.items@) == vv_view(g.items@).push(plines_view(g.cur@)),
        r.blank_between == blank_between,
        r.ci == m.content_indent,
        plines_view(r.cur@) == seq![first_content(pline_view(*line), marker_view(*m))],
{
    let ListGather { items, blank_between: _, ci: _, cur } = g;
    let mut items = items;
    proof {
        lemma_vv_push(items@, cur);
    }
    items.push(cur);
    ListGather { items, blank_between, ci: m.content_indent, cur: new_item(line, m) }
}

/// One line of the list on line `i`: the new state and the next line,
/// or the state unchanged and `None` where the list ends.
#[verifier::spinoff_prover]
#[verifier::rlimit(60)]
fn list_step(lines: &Vec<PLine>, i: usize, ordered: bool, delim: char, bullet: char, g: ListGather) -> (r: (
    ListGather,
    Option<usize>,
))
    requires
        i < lines@.len(),
    ensures
        r.1 is None ==> r.0 == g,
        match r.1 {
            None => lg_step(plines_view(lines@), ordered, delim, bullet, lg_of(i as int, g)) is None,
            Some(ni) => i < ni <= lines@.len() && lg_step(plines_view(lines@), ordered, delim, bullet, lg_of(i as int, g))
                == Some(lg_of(ni as int, r.0)),
        },
{
    let ghost lv = plines_view(lines@);
    let ghost gs = lg_of(i as int, g);
    let n = lines.len();
    assert(lv[i as int] == pline_view(lines@[i as int]));
    if is_blank(&lines[i].s) {
        let mut j = i;
        while j < n && is_blank(&lines[j].s)
            invariant
                i <= j <= n,
                n == lines@.len(),
                lv == plines_view(lines@),
                nonblank_from(lv, j as int) == nonblank_from(lv, i as int),
            decreases n - j,
        {
            assert(lv[j as int] == pline_view(lines@[j as int]));
            j += 1;
        }
        if j >= n {
            // Trailing blanks end the list and stay unconsumed.
            return (g, None);
        }
        assert(lv[j as int] == pline_view(lines@[j as int]));
        // A same-type item marker after the blanks (a thematic break such
        // as `* * *` ends the list instead).
        let next_item = match parse_list_marker(&lines[j]) {
            Some(m2) => {
                if !is_thematic_break(&lines[j]) && same_list_type(&m2, ordered, delim, bullet)
                    && indent_rel(&lines[j]) < g.ci {
                    Some(m2)
                } else {
                    None
                }
            },
            None => None,
        };
        match next_item {
            Some(m2) => {
                let e = fresh(Vec::new());
                assert(pline_view(e) =~= empty_lv());
                let g1 = cur_pushed(g, e);
                let g2 = item_started(g1, &lines[j], &m2, true);
                assert(lg_of(j + 1, g2) =~= lg_step(lv, ordered, delim, bullet, gs)->0);
                return (g2, Some(j + 1));
            },
            None => {},
        }
        // An item that never saw content ends here.
        if all_empty(&g.cur) {
            return (g, None);
        }
        // Indented content after the blank belongs to the item.
        if indent_rel(&lines[j]) >= g.ci {
            let e = fresh(Vec::new());
            assert(pline_view(e) =~= empty_lv());
            let g1 = cur_pushed(g, e);
            assert(lg_of(i + 1, g1) =~= lg_step(lv, ordered, delim, bullet, gs)->0);
            return (g1, Some(i + 1));
        }
        return (g, None);
    }
    // Same-type new item? (A thematic break line ends the list.)
    if !is_thematic_break(&lines[i]) {
        match parse_list_marker(&lines[i]) {
            Some(m2) => {
                if same_list_type(&m2, ordered, delim, bullet) && indent_rel(&lines[i]) < g.ci {
                    let bb = g.blank_between;
                    let g2 = item_started(g, &lines[i], &m2, bb);
                    assert(lg_of(i + 1, g2) =~= lg_step(lv, ordered, delim, bullet, gs)->0);
                    return (g2, Some(i + 1));
                }
                // A different marker is sublist content when indented.
                if indent_rel(&lines[i]) >= g.ci {
                    let x = strip_cols(&lines[i], g.ci);
                    let g1 = cur_pushed(g, x);
                    assert(lg_of(i + 1, g1) =~= lg_step(lv, ordered, delim, bullet, gs)->0);
                    return (g1, Some(i + 1));
                }
                return (g, None);
            },
            None => {},
        }
    }
    // Indented content line.
    if indent_rel(&lines[i]) >= g.ci {
        let x = strip_cols(&lines[i], g.ci);
        let g1 = cur_pushed(g, x);
        assert(lg_of(i + 1, g1) =~= lg_step(lv, ordered, delim, bullet, gs)->0);
        return (g1, Some(i + 1));
    }
    // Lazy continuation: paragraph text joining an open paragraph.
    if last_para_open(&g.cur) && !is_interrupting_block_start(&lines[i], true) {
        let mut lazy = strip_cols(&lines[i], 3);
        lazy.lazy = true;
        let g1 = cur_pushed(g, lazy);
        assert(lg_of(i + 1, g1) =~= lg_step(lv, ordered, delim, bullet, gs)->0);
        return (g1, Some(i + 1));
    }
    (g, None)
}

/// The lines of each item of the list whose first marker `first` is on
/// line `start`, whether a blank line separated two items, and the line
/// after the list.
fn gather_list(lines: &Vec<PLine>, start: usize, first: &ListMarker) -> (r: (Vec<Vec<PLine>>, bool, usize))
    requires
        start < lines@.len(),
    ensures
        ({
            let g = lg_run(
                plines_view(lines@),
                first.ordered,
                first.delim,
                first.bullet,
                LG {
                    i: start + 1,
                    items: Seq::empty(),
                    blank_between: false,
                    ci: first.content_indent as int,
                    cur: seq![first_content(plines_view(lines@)[start as int], marker_view(*first))],
                },
            );
            &&& vv_view(r.0@) == g.items.push(g.cur)
            &&& r.1 == g.blank_between
            &&& r.2 as int == g.i
        }),
        start < r.2 <= lines@.len(),
{
    let ghost lv = plines_view(lines@);
    let n = lines.len();
    let mut g = ListGather {
        items: Vec::new(),
        blank_between: false,
        ci: first.content_indent,
        cur: new_item(&lines[start], first),
    };
    let mut i = start + 1;
    let ghost g0 = lg_of(i as int, g);
    assert(lv[start as int] == pline_view(lines@[start as int]));
    assert(vv_view(g.items@) =~= Seq::<Seq<LV>>::empty());
    while i < n
        invariant
            start < i <= n,
            n == lines@.len(),
            lv == plines_view(lines@),
            lg_run(lv, first.ordered, first.delim, first.bullet, lg_of(i as int, g)) == lg_run(
                lv,
                first.ordered,
                first.delim,
                first.bullet,
                g0,
            ),
        decreases n - i,
    {
        let (g1, next) = list_step(lines, i, first.ordered, first.delim, first.bullet, g);
        g = g1;
        match next {
            Some(ni) => {
                i = ni;
            },
            None => {
                assert(lg_run(lv, first.ordered, first.delim, first.bullet, lg_of(i as int, g)) == lg_of(i as int, g));
                break;
            },
        }
    }
    assert(lg_run(lv, first.ordered, first.delim, first.bullet, lg_of(i as int, g)) == lg_of(i as int, g));
    let ListGather { items, blank_between, ci: _, cur } = g;
    let mut items = items;
    proof {
        lemma_vv_push(items@, cur);
    }
    items.push(cur);
    (items, blank_between, i)
}

/// Parse a list starting at `start`, whose first marker is `first`.
/// Returns the list block and the index of the first line after it.
/// Indentation is relative to the list's frame; tab phases ride along.
fn parse_list(lines: &Vec<PLine>, start: usize, first: ListMarker, refs: &mut RefDefs, fuel: usize) -> (r: (Block, usize))
    requires
        start < lines@.len(),
        fuel > 0,
    ensures
        start < r.1 <= lines@.len(),
        (mb_view(r.0), r.1 as int, refs_view(*final(refs))) == spec_list(
            plines_view(lines@),
            start as int,
            marker_view(first),
            refs_view(*old(refs)),
            fuel as nat,
        ),
    decreases fuel, 0usize,
{
    let (items_raw, blank_between, next) = gather_list(lines, start, &first);
    let ghost raw = vv_view(items_raw@);
    // Tight vs loose: loose when items are separated by blank lines, or an
    // item directly holds two blocks separated by a blank line (blanks
    // inside a child block do not count).
    let mut loose = blank_between;
    let mut items: Vec<Vec<Block>> = Vec::new();
    let mut q: usize = 0;
    let ghost refs0 = refs_view(*refs);
    assert(items_view(items@) =~= Seq::<Seq<MB>>::empty());
    while q < items_raw.len()
        invariant
            q <= items_raw@.len(),
            raw == vv_view(items_raw@),
            fuel > 0,
            spec_items(raw, q as int, loose, items_view(items@), refs_view(*refs), fuel as nat) == spec_items(
                raw,
                0,
                blank_between,
                Seq::empty(),
                refs0,
                fuel as nat,
            ),
        decreases items_raw@.len() - q,
    {
        let r = trim_empty_lines(&items_raw[q]);
        let (blocks, spans) = parse_blocks_spanned(&r, refs, fuel - 1);
        if !loose && has_direct_blank(&r, &spans) {
            loose = true;
        }
        proof {
            lemma_items_push(items@, blocks);
        }
        items.push(blocks);
        q += 1;
    }
    (
        Block::List {
            ordered: first.ordered,
            start: first.number,
            tight: !loose,
            items,
            bullet: first.bullet,
            delimiter: first.delim,
        },
        next,
    )
}

// ---------------------------------------------------------------------------
// Rendering
// ---------------------------------------------------------------------------

/// Index of the first whitespace character at or after `i` (or the end).
pub open spec fn word_end(s: Seq<char>, i: int) -> int
    decreases s.len() - i,
{
    if i < 0 || i >= s.len() || crate::text::spec_is_whitespace(s[i]) {
        if i < 0 {
            0
        } else if i > s.len() {
            s.len() as int
        } else {
            i
        }
    } else {
        word_end(s, i + 1)
    }
}

/// First whitespace-separated word.
pub open spec fn spec_first_word(s: Seq<char>) -> Seq<char> {
    let a = crate::text::lead_end(s, 0, 0);
    s.subrange(a, word_end(s, a))
}

/// Backslash escapes of ASCII punctuation resolved, from `i` on.
pub open spec fn unbackslash_from(w: Seq<char>, i: int) -> Seq<char>
    decreases w.len() - i,
{
    if i < 0 || i >= w.len() {
        Seq::empty()
    } else if w[i] == '\\' && i + 1 < w.len() && crate::text::spec_ascii_punct(w[i + 1]) {
        seq![w[i + 1]] + unbackslash_from(w, i + 2)
    } else {
        seq![w[i]] + unbackslash_from(w, i + 1)
    }
}

/// The language word of a fenced-code info string: its first word, with
/// backslash escapes and entities resolved (`foo\+bar` gives `foo+bar`).
pub open spec fn spec_info_word(info: Seq<char>) -> Seq<char> {
    crate::html_escape::spec_unescape_html(unbackslash_from(spec_first_word(info), 0))
}

proof fn lemma_word_end_bounds(s: Seq<char>, i: int)
    requires
        0 <= i <= s.len(),
    ensures
        i <= word_end(s, i) <= s.len(),
        forall|k: int| i <= k < word_end(s, i) ==> !crate::text::spec_is_whitespace(#[trigger] s[k]),
    decreases s.len() - i,
{
    if i < s.len() && !crate::text::spec_is_whitespace(s[i]) {
        lemma_word_end_bounds(s, i + 1);
    }
}

/// First word of a fenced-code info string, with backslash escapes and
/// entities resolved.
pub(crate) fn clean_info_word(info: &Vec<char>) -> (r: Vec<char>)
    ensures
        r@ == spec_info_word(info@),
{
    let a = skip_class(info, 0, 0);
    let mut b = a;
    while b < info.len() && !is_whitespace(info[b])
        invariant
            a <= b <= info@.len(),
            word_end(info@, b as int) == word_end(info@, a as int),
        decreases info@.len() - b,
    {
        b += 1;
    }
    let word = slice(info, a, b);
    proof {
        crate::text::lemma_lead_end_bounds(info@, 0, 0);
    }
    assert(word@ == spec_first_word(info@));
    let mut out: Vec<char> = Vec::new();
    let mut k: usize = 0;
    while k < word.len()
        invariant
            k <= word@.len(),
            out@ + unbackslash_from(word@, k as int) == unbackslash_from(word@, 0),
        decreases word@.len() - k,
    {
        let c = word[k];
        let ghost before = out@;
        if c == '\\' && k + 1 < word.len() && is_ascii_punct(word[k + 1]) {
            out.push(word[k + 1]);
            proof {
                assert(before + unbackslash_from(word@, k as int) =~= out@ + unbackslash_from(
                    word@,
                    k + 2,
                ));
            }
            k += 2;
        } else {
            out.push(c);
            proof {
                assert(before + unbackslash_from(word@, k as int) =~= out@ + unbackslash_from(
                    word@,
                    k + 1,
                ));
            }
            k += 1;
        }
    }
    assert(unbackslash_from(word@, k as int) =~= Seq::<char>::empty());
    assert(out@ =~= unbackslash_from(word@, 0));
    unescape_chars(&out)
}

/// `new` begins with `old`: output is only ever appended to.
pub open spec fn extends(old: Seq<char>, new: Seq<char>) -> bool {
    old.len() <= new.len() && forall|k: int| 0 <= k < old.len() ==> #[trigger] new[k] == old[k]
}

// ---------------------------------------------------------------------------
// The renderer, as mathematics
// ---------------------------------------------------------------------------

/// Escaped code lines, each followed by a line break.
pub open spec fn md_code_lines(lines: Seq<Seq<char>>) -> Seq<char>
    decreases lines.len(),
{
    if lines.len() == 0 {
        Seq::empty()
    } else {
        md_code_lines(lines.drop_last()) + crate::html_escape::spec_escape_html(lines.last()) + seq!['\n']
    }
}

/// Raw lines, each followed by a line break.
pub open spec fn md_raw_lines(lines: Seq<Seq<char>>) -> Seq<char>
    decreases lines.len(),
{
    if lines.len() == 0 {
        Seq::empty()
    } else {
        md_raw_lines(lines.drop_last()) + lines.last() + seq!['\n']
    }
}

pub open spec fn md_align_attr(a: Align) -> Seq<char> {
    match a {
        Align::Left => " align=\"left\""@,
        Align::Center => " align=\"center\""@,
        Align::Right => " align=\"right\""@,
        Align::Unset => Seq::empty(),
    }
}

pub open spec fn md_align_at(aligns: Seq<Align>, k: int) -> Align {
    if 0 <= k < aligns.len() {
        aligns[k]
    } else {
        Align::Unset
    }
}

/// One table cell.
pub open spec fn md_cell(tag: Seq<char>, a: Align, content: Seq<char>, refs: RV) -> Seq<char> {
    seq!['<'] + tag + md_align_attr(a) + seq!['>'] + crate::inline_parser::spec_inline_html(content, refs)
        + "</"@ + tag + ">\n"@
}

/// The first `k` cells of a row (missing cells empty).
pub open spec fn md_row_cells(tag: Seq<char>, row: Seq<Seq<char>>, aligns: Seq<Align>, k: int, refs: RV) -> Seq<char>
    decreases k,
{
    if k <= 0 {
        Seq::empty()
    } else {
        md_row_cells(tag, row, aligns, k - 1, refs) + md_cell(
            tag,
            md_align_at(aligns, k - 1),
            if k - 1 < row.len() {
                row[k - 1]
            } else {
                Seq::empty()
            },
            refs,
        )
    }
}

/// Body rows, each cut or padded to `ncols` cells.
pub open spec fn md_body_rows(rows: Seq<Seq<Seq<char>>>, aligns: Seq<Align>, ncols: int, refs: RV) -> Seq<char>
    decreases rows.len(),
{
    if rows.len() == 0 {
        Seq::empty()
    } else {
        md_body_rows(rows.drop_last(), aligns, ncols, refs) + "<tr>\n"@ + md_row_cells(
            "td"@,
            rows.last(),
            aligns,
            ncols,
            refs,
        ) + "</tr>\n"@
    }
}

/// The language of a fence: its info word cut at the first `,`.
pub open spec fn fence_lang(info: Seq<char>) -> Seq<char> {
    crate::highlight::spec_language(info)
}

/// HTML of a parsed block.
pub open spec fn md_block_html(b: MB, refs: RV) -> Seq<char>
    decreases b, 0nat,
{
    match b {
        MB::Paragraph(lines) => "<p>"@ + crate::inline_parser::spec_inline_html(
            crate::html_to_markdown::join_nl(lines),
            refs,
        ) + "</p>\n"@,
        MB::Heading(level, content, _) => "<h"@ + spec_decimal(level as nat) + seq!['>']
            + crate::inline_parser::spec_inline_html(content, refs) + "</h"@ + spec_decimal(level as nat)
            + ">\n"@,
        MB::ThematicBreak(_) => "<hr />\n"@,
        MB::Table { header, aligns, rows } => "<table>\n<thead>\n<tr>\n"@ + md_row_cells(
            "th"@,
            header,
            aligns,
            header.len() as int,
            refs,
        ) + "</tr>\n</thead>\n"@ + (if rows.len() > 0 {
            "<tbody>\n"@ + md_body_rows(rows, aligns, header.len() as int, refs) + "</tbody>\n"@
        } else {
            Seq::empty()
        }) + "</table>\n"@,
        MB::IndentedCode(lines) => "<pre><code>"@ + md_code_lines(lines) + "</code></pre>\n"@,
        MB::FencedCode { info, lines, .. } => "<pre><code"@ + (if fence_lang(info).len() > 0 {
            " class=\"language-"@ + crate::html_escape::spec_escape_html(fence_lang(info)) + seq!['"']
        } else {
            Seq::empty()
        }) + seq!['>'] + md_code_lines(lines) + "</code></pre>\n"@,
        MB::HtmlBlock(lines) => md_raw_lines(lines),
        MB::BlockQuote(children) => "<blockquote>\n"@ + md_blocks_html(children, refs)
            + "</blockquote>\n"@,
        MB::List { ordered, start, tight, items, .. } => (if ordered {
            if start != 1 {
                "<ol start=\""@ + spec_decimal(start as nat) + "\">\n"@
            } else {
                "<ol>\n"@
            }
        } else {
            "<ul>\n"@
        }) + md_items_html(items, tight, refs) + (if ordered {
            "</ol>\n"@
        } else {
            "</ul>\n"@
        }),
    }
}

/// HTML of parsed blocks, concatenated.
pub open spec fn md_blocks_html(bs: Seq<MB>, refs: RV) -> Seq<char>
    decreases bs, 0nat,
{
    if bs.len() == 0 {
        Seq::empty()
    } else {
        md_blocks_html(bs.drop_last(), refs) + md_block_html(bs.last(), refs)
    }
}

proof fn lemma_blocks_html_push(bs: Seq<MB>, b: MB, refs: RV)
    ensures
        md_blocks_html(bs.push(b), refs) == md_blocks_html(bs, refs) + md_block_html(b, refs),
{
    assert(bs.push(b).drop_last() =~= bs);
}

proof fn lemma_items_html_push(items: Seq<Seq<MB>>, it: Seq<MB>, tight: bool, refs: RV)
    ensures
        md_items_html(items.push(it), tight, refs) == md_items_html(items, tight, refs) + md_item_html(it, tight, refs),
{
    assert(items.push(it).drop_last() =~= items);
}

/// HTML of list items.
pub open spec fn md_items_html(items: Seq<Seq<MB>>, tight: bool, refs: RV) -> Seq<char>
    decreases items, 0nat,
{
    if items.len() == 0 {
        Seq::empty()
    } else {
        md_items_html(items.drop_last(), tight, refs) + md_item_html(items.last(), tight, refs)
    }
}

/// HTML of one item: a tight item unwraps its paragraphs, children
/// separated by line breaks; a loose item keeps block form.
pub open spec fn md_item_html(item: Seq<MB>, tight: bool, refs: RV) -> Seq<char>
    decreases item, item.len() + 1,
{
    if tight {
        md_tight_from("<li>"@, item, 0, refs) + "</li>\n"@
    } else if item.len() == 0 {
        "<li></li>\n"@
    } else {
        "<li>\n"@ + md_blocks_html(item, refs) + "</li>\n"@
    }
}

/// A tight item's content from child `k` on, appended to `cur`.
pub open spec fn md_tight_from(cur: Seq<char>, bs: Seq<MB>, k: int, refs: RV) -> Seq<char>
    decreases bs, bs.len() - k,
{
    if k < 0 || k >= bs.len() {
        cur
    } else {
        match bs[k] {
            MB::Paragraph(lines) => {
                let c1 = if k > 0 && !(cur.len() > 0 && cur.last() == '\n') {
                    cur.push('\n')
                } else {
                    cur
                };
                md_tight_from(
                    c1 + crate::inline_parser::spec_inline_html(
                        crate::html_to_markdown::join_nl(lines),
                        refs,
                    ),
                    bs,
                    k + 1,
                    refs,
                )
            },
            _ => {
                let c1 = if !(cur.len() > 0 && cur.last() == '\n') {
                    cur.push('\n')
                } else {
                    cur
                };
                md_tight_from(c1 + md_block_html(bs[k], refs), bs, k + 1, refs)
            },
        }
    }
}

/// HTML of inline Markdown text.
fn render_inline_text(s: &Vec<char>, refs: &RefDefs) -> (r: Vec<char>)
    ensures
        r@ == crate::inline_parser::spec_inline_html(s@, refs_view(*refs)),
{
    let elems = parse_inline_chars(s, refs);
    proof {
        crate::inline_parser::lemma_list_html_view(elems@);
    }
    inline_html_chars(&elems)
}

/// The last character written is a line break.
fn ends_nl(out: &Vec<char>) -> (r: bool)
    ensures
        r == (out@.len() > 0 && out@.last() == '\n'),
{
    out.len() > 0 && out[out.len() - 1] == '\n'
}

/// Escaped code lines, each followed by a line break.
fn push_code_lines(out: &mut Vec<char>, lines: &Vec<Vec<char>>)
    ensures
        extends(old(out)@, final(out)@),
        final(out)@ == old(out)@ + md_code_lines(lines_view(lines@)),
{
    let ghost start = out@;
    let mut k: usize = 0;
    while k < lines.len()
        invariant
            k <= lines@.len(),
            out@ == start + md_code_lines(lines_view(lines@.take(k as int))),
        decreases lines@.len() - k,
    {
        push_escaped(out, &lines[k]);
        out.push('\n');
        proof {
            assert(lines@.take(k + 1).drop_last() =~= lines@.take(k as int));
        }
        assert(lines_view(lines@.take(k + 1)).drop_last() =~= lines_view(lines@.take(k as int)));
        assert(out@ =~= start + md_code_lines(lines_view(lines@.take(k + 1))));
        k += 1;
    }
    assert(lines@.take(lines@.len() as int) =~= lines@);
}

/// Alignment of column `k` (unset past the delimiter row).
fn align_at(aligns: &Vec<Align>, k: usize) -> (r: Align)
    ensures
        r == md_align_at(aligns@, k as int),
{
    if k < aligns.len() {
        aligns[k]
    } else {
        Align::Unset
    }
}

/// One table cell: `<th>`/`<td>` with an optional `align`, inline content.
fn push_cell(out: &mut Vec<char>, tag: &str, a: Align, content: &Vec<char>, refs: &RefDefs)
    ensures
        extends(old(out)@, final(out)@),
        final(out)@ == old(out)@ + md_cell(tag@, a, content@, refs_view(*refs)),
{
    let ghost o = out@;
    out.push('<');
    push_str(out, tag);
    match a {
        Align::Left => push_str(out, " align=\"left\""),
        Align::Center => push_str(out, " align=\"center\""),
        Align::Right => push_str(out, " align=\"right\""),
        Align::Unset => {},
    }
    out.push('>');
    let inline = render_inline_text(content, refs);
    push_vec(out, &inline);
    push_str(out, "</");
    push_str(out, tag);
    push_str(out, ">\n");
    assert(out@ =~= o + md_cell(tag@, a, content@, refs_view(*refs)));
}

/// Render one block as HTML, appending to `out`.
#[verifier::spinoff_prover]
#[verifier::rlimit(80)]
fn render_block(b: &Block, refs: &RefDefs, out: &mut Vec<char>)
    ensures
        extends(old(out)@, final(out)@),
        final(out)@ == old(out)@ + md_block_html(mb_view(*b), refs_view(*refs)),
    decreases b, 1usize,
{
    let ghost start = out@;
    match b {
        Block::Paragraph(lines) => {
            let text = join_lines(lines);
            push_str(out, "<p>");
            let inline = render_inline_text(&text, refs);
            push_vec(out, &inline);
            push_str(out, "</p>\n");
        },
        Block::Heading(level, content, _) => {
            push_str(out, "<h");
            push_decimal(out, *level as u32);
            out.push('>');
            let inline = render_inline_text(content, refs);
            push_vec(out, &inline);
            push_str(out, "</h");
            push_decimal(out, *level as u32);
            push_str(out, ">\n");
        },
        Block::ThematicBreak(_) => {
            push_str(out, "<hr />\n");
        },
        Block::Table { .. } => render_table(b, refs, out),
        Block::IndentedCode(lines) => {
            push_str(out, "<pre><code>");
            push_code_lines(out, lines);
            push_str(out, "</code></pre>\n");
        },
        Block::FencedCode { info, lines, .. } => {
            push_str(out, "<pre><code");
            // The fence language: the info word cut at the first `,`.
            let word = clean_info_word(info);
            let mut cut: usize = 0;
            while cut < word.len() && word[cut] != ','
                invariant
                    cut <= word@.len(),
                    crate::highlight::comma_at(word@, cut as int) == crate::highlight::comma_at(word@, 0),
                decreases word@.len() - cut,
            {
                cut += 1;
            }
            let lang = slice(&word, 0, cut);
            assert(lang@ =~= fence_lang(info@));
            if lang.len() > 0 {
                push_str(out, " class=\"language-");
                push_escaped(out, &lang);
                out.push('"');
            }
            out.push('>');
            push_code_lines(out, lines);
            push_str(out, "</code></pre>\n");
        },
        Block::HtmlBlock(lines) => {
            let mut k: usize = 0;
            while k < lines.len()
                invariant
                    k <= lines@.len(),
                    out@ == start + md_raw_lines(lines_view(lines@.take(k as int))),
                decreases lines@.len() - k,
            {
                push_vec(out, &lines[k]);
                out.push('\n');
                proof {
                    assert(lines@.take(k + 1).drop_last() =~= lines@.take(k as int));
                }
                assert(lines_view(lines@.take(k + 1)).drop_last() =~= lines_view(lines@.take(k as int)));
                assert(out@ =~= start + md_raw_lines(lines_view(lines@.take(k + 1))));
                k += 1;
            }
            assert(lines@.take(lines@.len() as int) =~= lines@);
        },
        Block::BlockQuote(children) => {
            push_str(out, "<blockquote>\n");
            let ghost m0 = out@;
            let mut k: usize = 0;
            while k < children.len()
                invariant
                    k <= children@.len(),
                    out@ == m0 + md_blocks_html(mbs_view(children@.take(k as int)), refs_view(*refs)),
                decreases children@.len() - k,
            {
                proof {
                    assert(decreases_to!(b => children));
                    assert(decreases_to!(children => children@));
                    assert(decreases_to!(children@ => children@[k as int]));
                }
                render_block(&children[k], refs, out);
                proof {
                    assert(children@.take(k + 1).drop_last() =~= children@.take(k as int));
                }
                proof {
                    lemma_mbs_push(children@.take(k as int), children@[k as int]);
                    lemma_blocks_html_push(mbs_view(children@.take(k as int)), mb_view(children@[k as int]), refs_view(*refs));
                    assert(children@.take(k as int).push(children@[k as int]) =~= children@.take(k + 1));
                }
                assert(out@ =~= m0 + md_blocks_html(mbs_view(children@.take(k + 1)), refs_view(*refs)));
                k += 1;
            }
            assert(children@.take(children@.len() as int) =~= children@);
            push_str(out, "</blockquote>\n");
        },
        Block::List { .. } => render_list(b, refs, out),
    }
    assert(out@ =~= start + md_block_html(mb_view(*b), refs_view(*refs)));
}

/// The first `n` cells of a row (missing cells empty).
fn render_row_cells(tag: &str, row: &Vec<Vec<char>>, aligns: &Vec<Align>, n: usize, refs: &RefDefs, out: &mut Vec<char>)
    ensures
        final(out)@ == old(out)@ + md_row_cells(tag@, lines_view(row@), aligns@, n as int, refs_view(*refs)),
{
    let ghost m3 = out@;
    let mut k: usize = 0;
    while k < n
        invariant
            k <= n,
            out@ == m3 + md_row_cells(tag@, lines_view(row@), aligns@, k as int, refs_view(*refs)),
        decreases n - k,
    {
        if k < row.len() {
            push_cell(out, tag, align_at(aligns, k), &row[k], refs);
        } else {
            let empty: Vec<char> = Vec::new();
            push_cell(out, tag, align_at(aligns, k), &empty, refs);
        }
        k += 1;
    }
}

/// Body rows, each cut or padded to `ncols` cells.
fn render_body_rows(rows: &Vec<Vec<Vec<char>>>, aligns: &Vec<Align>, ncols: usize, refs: &RefDefs, out: &mut Vec<char>)
    ensures
        final(out)@ == old(out)@ + md_body_rows(rows_view(rows@), aligns@, ncols as int, refs_view(*refs)),
{
    let ghost m2 = out@;
    let mut q: usize = 0;
    while q < rows.len()
        invariant
            q <= rows@.len(),
            out@ == m2 + md_body_rows(rows_view(rows@.take(q as int)), aligns@, ncols as int, refs_view(*refs)),
        decreases rows@.len() - q,
    {
        push_str(out, "<tr>\n");
        render_row_cells("td", &rows[q], aligns, ncols, refs, out);
        push_str(out, "</tr>\n");
        proof {
            assert(rows@.take(q + 1).drop_last() =~= rows@.take(q as int));
        }
        assert(rows_view(rows@.take(q + 1)).drop_last() =~= rows_view(rows@.take(q as int)));
        assert(out@ =~= m2 + md_body_rows(rows_view(rows@.take(q + 1)), aligns@, ncols as int, refs_view(*refs)));
        q += 1;
    }
    assert(rows@.take(rows@.len() as int) =~= rows@);
}

/// Render a table block.
#[verifier::spinoff_prover]
#[verifier::rlimit(80)]
fn render_table(b: &Block, refs: &RefDefs, out: &mut Vec<char>)
    requires
        b is Table,
    ensures
        final(out)@ == old(out)@ + md_block_html(mb_view(*b), refs_view(*refs)),
{
    let ghost start = out@;
    match b {
        Block::Table { header, aligns, rows } => {
            push_str(out, "<table>\n<thead>\n<tr>\n");
            let ncols = header.len();
            render_row_cells("th", header, aligns, ncols, refs, out);
            push_str(out, "</tr>\n</thead>\n");
            if rows.len() > 0 {
                push_str(out, "<tbody>\n");
                render_body_rows(rows, aligns, ncols, refs, out);
                push_str(out, "</tbody>\n");
            }
            push_str(out, "</table>\n");
        },
        _ => {},
    }
    assert(out@ =~= start + md_block_html(mb_view(*b), refs_view(*refs)));
}

/// Render a list block.
#[verifier::spinoff_prover]
#[verifier::rlimit(80)]
fn render_list(b: &Block, refs: &RefDefs, out: &mut Vec<char>)
    requires
        b is List,
    ensures
        final(out)@ == old(out)@ + md_block_html(mb_view(*b), refs_view(*refs)),
    decreases b, 0usize,
{
    let ghost start = out@;
    match b {
        Block::List { ordered, start: list_start, tight, items, .. } => {
            if *ordered {
                if *list_start != 1 {
                    push_str(out, "<ol start=\"");
                    push_decimal(out, *list_start);
                    push_str(out, "\">\n");
                } else {
                    push_str(out, "<ol>\n");
                }
            } else {
                push_str(out, "<ul>\n");
            }
            let ghost m0 = out@;
            let mut q: usize = 0;
            while q < items.len()
                invariant
                    q <= items@.len(),
                    out@ == m0 + md_items_html(items_view(items@.take(q as int)), *tight, refs_view(*refs)),
                decreases items@.len() - q,
            {
                proof {
                    assert(decreases_to!(b => items));
                    assert(decreases_to!(items => items@));
                    assert(decreases_to!(items@ => items@[q as int]));
                }
                render_item(&items[q], *tight, refs, out);
                proof {
                    assert(items@.take(q + 1).drop_last() =~= items@.take(q as int));
                }
                proof {
                    lemma_items_push(items@.take(q as int), items@[q as int]);
                    lemma_items_html_push(items_view(items@.take(q as int)), mbs_view(items@[q as int]@), *tight, refs_view(*refs));
                    assert(items@.take(q as int).push(items@[q as int]) =~= items@.take(q + 1));
                }
                assert(out@ =~= m0 + md_items_html(items_view(items@.take(q + 1)), *tight, refs_view(*refs)));
                q += 1;
            }
            assert(items@.take(items@.len() as int) =~= items@);
            if *ordered {
                push_str(out, "</ol>\n");
            } else {
                push_str(out, "</ul>\n");
            }
        },
        _ => {},
    }
    assert(out@ =~= start + md_block_html(mb_view(*b), refs_view(*refs)));
}

/// Render one list item.
#[verifier::spinoff_prover]
#[verifier::rlimit(80)]
fn render_item(item: &Vec<Block>, tight: bool, refs: &RefDefs, out: &mut Vec<char>)
    ensures
        final(out)@ == old(out)@ + md_item_html(mbs_view(item@), tight, refs_view(*refs)),
    decreases item, 0usize,
{
    let ghost start = out@;
    proof {
        lemma_mbs_view_props(item@);
    }
    if tight {
        // Tight list: paragraphs render without `<p>`; children are
        // joined with line breaks and `</li>` follows the last child
        // directly.
        push_str(out, "<li>");
        proof {
            reveal_strlit("<li>");
        }
        assert(out@.skip(start.len() as int) =~= "<li>"@);
        assert(out@.take(start.len() as int) =~= start);
        let mut k: usize = 0;
        while k < item.len()
            invariant
                k <= item@.len(),
                out@.len() > start.len(),
                md_tight_from(out@.skip(start.len() as int), mbs_view(item@), k as int, refs_view(*refs)) == md_tight_from("<li>"@, mbs_view(item@), 0, refs_view(*refs)),
                out@.take(start.len() as int) == start,
            decreases item@.len() - k,
        {
            let ghost cur = out@.skip(start.len() as int);
            assert(out@ =~= start + cur);
            assert(ends_nl_spec(out@) == (cur.len() > 0 && cur.last() == '\n'));
            assert(mbs_view(item@)[k as int] == mb_view(item@[k as int]));
            match &item[k] {
                Block::Paragraph(plines) => {
                    let text = join_lines(plines);
                    let inline = render_inline_text(&text, refs);
                    let ghost c1 = if k > 0 && !(cur.len() > 0 && cur.last() == '\n') {
                        cur.push('\n')
                    } else {
                        cur
                    };
                    if k > 0 && !ends_nl(out) {
                        out.push('\n');
                    }
                    push_vec(out, &inline);
                    assert(out@.skip(start.len() as int) =~= c1 + inline@);
                },
                _ => {
                    let ghost c1 = if !(cur.len() > 0 && cur.last() == '\n') {
                        cur.push('\n')
                    } else {
                        cur
                    };
                    if !ends_nl(out) {
                        out.push('\n');
                    }
                    assert(out@ =~= start + c1);
                    proof {
                        assert(decreases_to!(item => item@));
                        assert(decreases_to!(item@ => item@[k as int]));
                    }
                    render_block(&item[k], refs, out);
                    assert(out@.skip(start.len() as int) =~= c1 + md_block_html(mb_view(item@[k as int]), refs_view(*refs)));
                },
            }
            assert(out@.take(start.len() as int) =~= start);
            k += 1;
        }
        push_str(out, "</li>\n");
        assert(out@ =~= start + md_item_html(mbs_view(item@), tight, refs_view(*refs)));
    } else if item.len() == 0 {
        push_str(out, "<li></li>\n");
    } else {
        // Loose list: always block form.
        push_str(out, "<li>\n");
        let ghost m0 = out@;
        let mut k: usize = 0;
        while k < item.len()
            invariant
                k <= item@.len(),
                out@ == m0 + md_blocks_html(mbs_view(item@.take(k as int)), refs_view(*refs)),
            decreases item@.len() - k,
        {
            proof {
                assert(decreases_to!(item => item@));
                assert(decreases_to!(item@ => item@[k as int]));
            }
            render_block(&item[k], refs, out);
            proof {
                assert(item@.take(k + 1).drop_last() =~= item@.take(k as int));
            }
            proof {
                lemma_mbs_push(item@.take(k as int), item@[k as int]);
                lemma_blocks_html_push(mbs_view(item@.take(k as int)), mb_view(item@[k as int]), refs_view(*refs));
                assert(item@.take(k as int).push(item@[k as int]) =~= item@.take(k + 1));
            }
            assert(out@ =~= m0 + md_blocks_html(mbs_view(item@.take(k + 1)), refs_view(*refs)));
            k += 1;
        }
        assert(item@.take(item@.len() as int) =~= item@);
        push_str(out, "</li>\n");
    }
}

pub open spec fn ends_nl_spec(s: Seq<char>) -> bool {
    s.len() > 0 && s.last() == '\n'
}

// ---------------------------------------------------------------------------
// Entry point
// ---------------------------------------------------------------------------

/// `\r\n` and lone `\r` line endings become `\n`, from `i` on.
pub open spec fn normalize_newlines_from(s: Seq<char>, i: int) -> Seq<char>
    decreases s.len() - i,
{
    if i < 0 || i >= s.len() {
        Seq::empty()
    } else if s[i] == '\r' && i + 1 < s.len() && s[i + 1] == '\n' {
        normalize_newlines_from(s, i + 1)
    } else if s[i] == '\r' {
        seq!['\n'] + normalize_newlines_from(s, i + 1)
    } else {
        seq![s[i]] + normalize_newlines_from(s, i + 1)
    }
}

/// Line endings normalized to `\n`.
fn normalize_newlines(s: &Vec<char>) -> (r: Vec<char>)
    ensures
        r@ == normalize_newlines_from(s@, 0),
{
    let mut out: Vec<char> = Vec::new();
    let mut i: usize = 0;
    while i < s.len()
        invariant
            i <= s@.len(),
            out@ + normalize_newlines_from(s@, i as int) == normalize_newlines_from(s@, 0),
        decreases s@.len() - i,
    {
        let ghost before = out@;
        if s[i] == '\r' && i + 1 < s.len() && s[i + 1] == '\n' {
        } else if s[i] == '\r' {
            out.push('\n');
            assert(before + normalize_newlines_from(s@, i as int) =~= out@
                + normalize_newlines_from(s@, i + 1));
        } else {
            out.push(s[i]);
            assert(before + normalize_newlines_from(s@, i as int) =~= out@
                + normalize_newlines_from(s@, i + 1));
        }
        i += 1;
    }
    assert(out@ =~= normalize_newlines_from(s@, 0));
    out
}

/// Render parsed blocks as HTML.
fn render_blocks(blocks: &Vec<Block>, refs: &RefDefs) -> (r: Vec<char>)
    ensures
        r@ == md_blocks_html(mbs_view(blocks@), refs_view(*refs)),
{
    let mut out: Vec<char> = Vec::new();
    let mut k: usize = 0;
    while k < blocks.len()
        invariant
            k <= blocks@.len(),
            out@ == md_blocks_html(mbs_view(blocks@.take(k as int)), refs_view(*refs)),
        decreases blocks@.len() - k,
    {
        let ghost o = out@;
        render_block(&blocks[k], refs, &mut out);
        proof {
            assert(blocks@.take(k as int).push(blocks@[k as int]) =~= blocks@.take(k + 1));
            lemma_mbs_push(blocks@.take(k as int), blocks@[k as int]);
            lemma_blocks_html_push(mbs_view(blocks@.take(k as int)), mb_view(blocks@[k as int]), refs_view(*refs));
        }
        k += 1;
    }
    assert(blocks@.take(blocks@.len() as int) =~= blocks@);
    out
}

/// The lines of a document body, line endings normalized.
pub open spec fn body_lines(body: Seq<char>) -> Seq<LV> {
    crate::text::spec_lines(normalize_newlines_from(body, 0)).map_values(|l: Seq<char>| (l, 0usize, false))
}

/// The blocks of a document body and its reference definitions: a first
/// pass collects the definitions, a second parses with all of them.
/// Nesting is bounded by one more than the number of characters on the
/// body's lines.
pub open spec fn spec_parse_body(body: Seq<char>) -> (Seq<MB>, RV) {
    let lv = body_lines(body);
    let fuel = input_fuel(chars_in(crate::text::spec_lines(normalize_newlines_from(body, 0))));
    let second = spec_parse(lv, spec_parse(lv, Seq::empty(), fuel).2, fuel);
    (second.0, second.2)
}

/// The number of characters on some lines.
pub open spec fn chars_in(ls: Seq<Seq<char>>) -> nat
    decreases ls.len(),
{
    if ls.len() == 0 {
        0
    } else {
        chars_in(ls.drop_last()) + ls.last().len()
    }
}

/// The nesting bound used for an input of `n` characters.
pub open spec fn input_fuel(n: nat) -> nat {
    if n < usize::MAX {
        n + 1
    } else {
        usize::MAX as nat
    }
}

/// The HTML of a Markdown input: its body after the metadata block,
/// parsed and rendered.
pub open spec fn spec_convert(input: Seq<char>) -> Seq<char> {
    let p = spec_parse_body(crate::frontmatter::spec_strip_frontmatter(input));
    md_blocks_html(p.0, p.1)
}

/// `s` with every line feed written as `\r\n`.
pub open spec fn crlf_of(s: Seq<char>) -> Seq<char>
    decreases s.len(),
{
    if s.len() == 0 {
        Seq::empty()
    } else {
        (if s[0] == '\n' {
            seq!['\r', '\n']
        } else {
            seq![s[0]]
        }) + crlf_of(s.drop_first())
    }
}

/// `s` with every line feed written as a lone `\r`.
pub open spec fn cr_of(s: Seq<char>) -> Seq<char>
    decreases s.len(),
{
    if s.len() == 0 {
        Seq::empty()
    } else {
        (if s[0] == '\n' {
            seq!['\r']
        } else {
            seq![s[0]]
        }) + cr_of(s.drop_first())
    }
}

proof fn lemma_norm_shift(p: Seq<char>, u: Seq<char>, j: int)
    requires
        0 <= j,
    ensures
        normalize_newlines_from(p + u, p.len() + j) == normalize_newlines_from(u, j),
    decreases u.len() - j,
{
    if j < u.len() {
        lemma_norm_shift(p, u, j + 1);
        assert((p + u)[p.len() + j] == u[j]);
        if j + 1 < u.len() {
            assert((p + u)[p.len() + j + 1] == u[j + 1]);
        }
    }
}

proof fn lemma_norm_crlf(s: Seq<char>)
    requires
        forall|i: int| 0 <= i < s.len() ==> s[i] != '\r',
    ensures
        normalize_newlines_from(crlf_of(s), 0) == s,
        normalize_newlines_from(cr_of(s), 0) == s,
    decreases s.len(),
{
    if s.len() > 0 {
        let r = s.drop_first();
        lemma_norm_crlf(r);
        let h1 = if s[0] == '\n' {
            seq!['\r', '\n']
        } else {
            seq![s[0]]
        };
        let h2 = if s[0] == '\n' {
            seq!['\r']
        } else {
            seq![s[0]]
        };
        lemma_norm_shift(h1, crlf_of(r), 0);
        lemma_norm_shift(h2, cr_of(r), 0);
        if s[0] == '\n' {
            lemma_norm_shift(seq!['\r'], seq!['\n'] + crlf_of(r), 0);
            assert(h1 + crlf_of(r) =~= seq!['\r'] + (seq!['\n'] + crlf_of(r)));
            lemma_norm_shift(seq!['\r', '\n'], crlf_of(r), 0);
            if r.len() > 0 {
                assert(cr_of(r)[0] != '\n');
            }
        }
        assert(seq![s[0]] + r =~= s);
    }
}

/// Line endings do not matter: a body whose line feeds are written as
/// `\r\n`, or as lone `\r`, parses as the body itself.
pub proof fn law_line_endings(body: Seq<char>)
    requires
        forall|i: int| 0 <= i < body.len() ==> body[i] != '\r',
    ensures
        spec_parse_body(crlf_of(body)) == spec_parse_body(body),
        spec_parse_body(cr_of(body)) == spec_parse_body(body),
{
    lemma_norm_crlf(body);
    lemma_norm_id(body);
}

proof fn lemma_norm_id(s: Seq<char>)
    requires
        forall|i: int| 0 <= i < s.len() ==> s[i] != '\r',
    ensures
        normalize_newlines_from(s, 0) == s,
{
    lemma_norm_id_from(s, 0);
    assert(s.skip(0) =~= s);
}

proof fn lemma_norm_id_from(s: Seq<char>, i: int)
    requires
        forall|k: int| 0 <= k < s.len() ==> s[k] != '\r',
        0 <= i <= s.len(),
    ensures
        normalize_newlines_from(s, i) == s.skip(i),
    decreases s.len() - i,
{
    if i < s.len() {
        lemma_norm_id_from(s, i + 1);
        assert(seq![s[i]] + s.skip(i + 1) =~= s.skip(i));
    } else {
        assert(s.skip(i) =~= Seq::<char>::empty());
    }
}

pub(crate) proof fn lemma_next_nl_push(x: Seq<char>, i: int)
    requires
        0 <= i <= x.len(),
    ensures
        crate::text::next_nl(x.push('\n'), i) == crate::text::next_nl(x, i),
    decreases x.len() - i,
{
    if i < x.len() && x[i] != '\n' {
        lemma_next_nl_push(x, i + 1);
    }
}

proof fn lemma_lines_push(x: Seq<char>, i: int)
    requires
        forall|k: int| 0 <= k < x.len() ==> x[k] != '\r',
        x.len() > 0 && x.last() != '\n',
        0 <= i < x.len(),
    ensures
        crate::text::lines_from(x.push('\n'), i) == crate::text::lines_from(x, i),
    decreases x.len() - i,
{
    let xp = x.push('\n');
    lemma_next_nl_push(x, i);
    crate::text::lemma_next_nl(x, i);
    crate::text::lemma_next_nl(xp, i);
    let e = crate::text::next_nl(x, i);
    assert(xp.subrange(i, e) =~= x.subrange(i, e));
    if e < x.len() {
        assert(e < x.len() - 1);
        lemma_lines_push(x, e + 1);
    } else {
        assert(crate::text::lines_from(xp, e + 1) =~= Seq::<Seq<char>>::empty());
        assert(crate::text::lines_from(x, e + 1) =~= Seq::<Seq<char>>::empty());
    }
    if e > i {
        assert(xp[e - 1] == x[e - 1]);
    }
    assert(crate::text::line_text(xp, i) == crate::text::line_text(x, i));
    assert(crate::text::lines_from(xp, i) == seq![crate::text::line_text(xp, i)] + crate::text::lines_from(xp, e + 1));
    assert(crate::text::lines_from(x, i) == seq![crate::text::line_text(x, i)] + crate::text::lines_from(x, e + 1));
}

/// A final line feed does not matter: a body without one parses as the
/// same body with one added.
pub proof fn law_final_line_feed(body: Seq<char>)
    requires
        forall|i: int| 0 <= i < body.len() ==> body[i] != '\r',
        body.len() == 0 || body.last() != '\n',
    ensures
        spec_parse_body(body.push('\n')) == spec_parse_body(body),
{
    let bp = body.push('\n');
    lemma_norm_id(body);
    assert forall|i: int| 0 <= i < bp.len() implies bp[i] != '\r' by {
        if i < body.len() {
            assert(bp[i] == body[i]);
        }
    }
    lemma_norm_id(bp);
    if body.len() > 0 {
        lemma_lines_push(body, 0);
    } else {
        let l0: Seq<Seq<char>> = crate::text::spec_lines(bp);
        crate::text::lemma_next_nl(bp, 0);
        assert(bp[0] == '\n');
        assert(crate::text::next_nl(bp, 0) == 0);
        assert(crate::text::line_text(bp, 0) =~= Seq::<char>::empty());
        assert(crate::text::lines_from(bp, 1) =~= Seq::<Seq<char>>::empty());
        assert(l0 =~= seq![Seq::<char>::empty()]);
        assert(crate::text::spec_lines(body) =~= Seq::<Seq<char>>::empty());
        assert(l0.drop_last() =~= Seq::<Seq<char>>::empty());
        assert(chars_in(Seq::<Seq<char>>::empty()) == 0);
        assert(l0.last().len() == 0);
        assert(chars_in(l0) == chars_in(l0.drop_last()) + l0.last().len());
        assert(chars_in(l0) == 0);
        let lv1 = body_lines(bp);
        let lv0 = body_lines(body);
        assert(lv0 =~= Seq::<LV>::empty());
        assert(lv1 =~= seq![(Seq::<char>::empty(), 0usize, false)]);
        assert(spec_is_blank(Seq::<char>::empty()));
    }
}

/// Line endings do not matter for a whole input either: written with
/// `\r\n`, an input converts as with `\n` (its metadata block, if any, is
/// found the same way).
pub proof fn law_crlf_input(input: Seq<char>)
    requires
        forall|i: int| 0 <= i < input.len() ==> input[i] != '\r',
    ensures
        spec_convert(crlf_of(input)) == spec_convert(input),
{
    crate::frontmatter::lemma_crlf_strip(input);
    let body = crate::frontmatter::spec_strip_frontmatter(input);
    crate::frontmatter::lemma_strip_no_cr(input);
    law_line_endings(body);
}

/// A final line feed does not matter for a whole input either: an input
/// without one converts as the same input with one added.
pub proof fn law_final_line_feed_input(input: Seq<char>)
    requires
        forall|i: int| 0 <= i < input.len() ==> input[i] != '\r',
        input.len() == 0 || input.last() != '\n',
    ensures
        spec_convert(input.push('\n')) == spec_convert(input),
{
    let t = input.push('\n');
    if input.len() == 0 {
        assert(t =~= seq!['\n']);
        crate::text::lemma_next_nl(t, 0);
        assert(crate::text::next_nl(t, 0) == 0);
        assert(t.subrange(0, 1) =~= seq!['\n']);
        assert(seq!['\n'].drop_last() =~= Seq::<char>::empty());
        assert(crate::text::spec_trim_end(Seq::<char>::empty(), 1) =~= Seq::<char>::empty());
        assert(crate::frontmatter::spec_split(t) is None);
        assert(input.subrange(0, 0) =~= Seq::<char>::empty());
        assert(crate::frontmatter::spec_split(input) is None);
        law_final_line_feed(input);
    } else {
        crate::frontmatter::lemma_push_strip(input);
        crate::frontmatter::lemma_strip_no_cr(input);
        let b = crate::frontmatter::spec_strip_frontmatter(input);
        if crate::frontmatter::spec_strip_frontmatter(t) == b.push('\n') {
            law_final_line_feed(b);
        } else {
            assert(crate::frontmatter::spec_strip_frontmatter(t) =~= b);
        }
    }
}

proof fn lemma_cr_of_no_nl(s: Seq<char>)
    ensures
        cr_of(s).len() == s.len(),
        forall|k: int| 0 <= k < cr_of(s).len() ==> cr_of(s)[k] != '\n',
    decreases s.len(),
{
    if s.len() > 0 {
        lemma_cr_of_no_nl(s.drop_first());
        let h = if s[0] == '\n' {
            seq!['\r']
        } else {
            seq![s[0]]
        };
        assert forall|k: int| 0 <= k < cr_of(s).len() implies cr_of(s)[k] != '\n' by {
            if k > 0 {
                assert(cr_of(s)[k] == cr_of(s.drop_first())[k - 1]);
            } else {
                assert(cr_of(s)[0] == h[0]);
            }
        }
    }
}

/// Lone `\r` line endings do not matter for an input without a metadata
/// block: written with `\r` for each line feed, it converts as written
/// with `\n`.
pub proof fn law_cr_input(input: Seq<char>)
    requires
        forall|i: int| 0 <= i < input.len() ==> input[i] != '\r',
        crate::frontmatter::spec_split(input) is None,
    ensures
        spec_convert(cr_of(input)) == spec_convert(input),
{
    let x = cr_of(input);
    lemma_cr_of_no_nl(input);
    let st = crate::frontmatter::bom_len(x);
    crate::text::lemma_next_nl(x, st);
    assert(crate::text::next_nl(x, st) == x.len());
    let n = x.len() as int;
    assert(crate::frontmatter::line_end(x, st) == n);
    let d = crate::frontmatter::fence_of(x, st, n);
    crate::text::lemma_next_nl(x, n);
    assert(crate::frontmatter::line_end(x, n) == n);
    assert(x.subrange(n, n) =~= Seq::<char>::empty());
    assert(crate::frontmatter::line_content(x, n, n) =~= Seq::<char>::empty());
    assert(crate::text::spec_trim_end(Seq::<char>::empty(), 1) =~= Seq::<char>::empty());
    assert(crate::frontmatter::fence_of(x, n, n) =~= Seq::<char>::empty());
    if crate::frontmatter::is_delimiter(d) {
        assert(d.len() == 3);
        assert(crate::frontmatter::find_close(x, n, d) is None);
    }
    assert(crate::frontmatter::spec_split(x) is None);
    law_line_endings(input);
}

/// A leading metadata block is stripped: an input with one converts as
/// its body does (where the body does not itself open with another).
pub proof fn law_metadata_stripped(input: Seq<char>)
    requires
        crate::frontmatter::spec_split(input) is Some,
        crate::frontmatter::spec_split(crate::frontmatter::spec_strip_frontmatter(input)) is None,
    ensures
        spec_convert(input) == spec_convert(crate::frontmatter::spec_strip_frontmatter(input)),
{
}

/// Convert a Markdown string to HTML (CommonMark 0.31.2 core).
///
/// Supports ATX/setext headings, thematic breaks, indented/fenced code,
/// HTML blocks (verbatim passthrough), blockquotes, ordered/bulleted lists
/// (tight/loose), link reference definitions, paragraphs with lazy
/// continuation, and full inline parsing (emphasis, links, images,
/// autolinks, code spans, entities, hard/soft breaks). A leading metadata
/// block (`---` / `+++`) is stripped first. Conversion never fails.
pub fn convert(input: &str) -> (r: Result<String, Error>)
    ensures
        r matches Ok(s) && s@ == spec_convert(input@),
{
    let v = chars_of(input);
    let body = crate::frontmatter::strip_frontmatter_chars(&v);
    let (blocks, refs) = parse_body(&body);
    let out = render_blocks(&blocks, &refs);
    Ok(string_of(&out))
}

/// `s` is the HTML of every block list whose events are those of `input`
/// (with GFM where `gfm`) and whose indented code carries no language,
/// code blocks through `hl`; such lists all render alike.
pub open spec fn html_of_events(
    input: Seq<char>,
    gfm: bool,
    hl: Option<&dyn crate::highlight::SyntaxHighlighter>,
    s: Seq<char>,
) -> bool {
    &&& exists|bs: Seq<crate::ast::Block>| crate::stream_law::code_ok_all(bs) && #[trigger] crate::stream::blocks_events(bs) == crate::ast::spec_events(input, gfm)
    &&& forall|bs: Seq<crate::ast::Block>|
        crate::stream_law::code_ok_all(bs) && #[trigger] crate::stream::blocks_events(bs) == crate::ast::spec_events(input, gfm)
            ==> s == crate::ast::blocks_html_hl(bs, hl)
}

/// HTML of a parsed document, code blocks through `hl`: what
/// [`html_of_events`] names.
fn render_parsed(
    input: &str,
    gfm: bool,
    hl: Option<&dyn crate::highlight::SyntaxHighlighter>,
) -> (r: String)
    ensures
        crate::highlight::hl_stated(hl) ==> html_of_events(input@, gfm, hl, r@),
{
    let doc = crate::ast::parse(input, crate::Options { gfm });
    let r = crate::ast::render_html_with_highlighter(&doc, hl);
    proof {
        let b0 = doc.blocks@;
        assert(crate::stream_law::code_ok_all(b0) && crate::stream::blocks_events(b0) == crate::ast::spec_events(input@, gfm));
        assert forall|bs: Seq<crate::ast::Block>|
            crate::highlight::hl_stated(hl) && crate::stream_law::code_ok_all(bs) && #[trigger] crate::stream::blocks_events(bs) == crate::ast::spec_events(input@, gfm)
                implies r@ == crate::ast::blocks_html_hl(bs, hl) by {
            crate::stream_law::lemma_blocks_det(bs, b0, hl);
        }
    }
    r
}

/// Convert Markdown to HTML with GFM extensions (task lists), through the
/// AST. Pipe tables render in both modes. Conversion never fails.
pub fn convert_gfm(input: &str) -> (r: Result<String, Error>)
    ensures
        r matches Ok(s) && html_of_events(input@, true, None, s@),
{
    let s = render_parsed(input, true, None);
    assert(crate::highlight::hl_stated(None));
    Ok(s)
}

/// Convert Markdown to HTML with explicit options: [`convert`] without
/// GFM, [`convert_gfm`] with it.
pub fn convert_with(input: &str, options: crate::Options) -> (r: Result<String, Error>)
    ensures
        !options.gfm ==> (r matches Ok(s) && s@ == spec_convert(input@)),
        options.gfm ==> (r matches Ok(s) && html_of_events(input@, true, None, s@)),
{
    if options.gfm {
        convert_gfm(input)
    } else {
        convert(input)
    }
}

/// Convert Markdown to HTML with an optional highlighter for code blocks:
/// without one, as [`convert_with`]; with one, through the AST, each code
/// block's content being what the highlighter gives for its language and
/// text.
pub fn convert_with_highlighter(
    input: &str,
    options: crate::Options,
    highlighter: Option<&dyn crate::highlight::SyntaxHighlighter>,
) -> (r: Result<String, Error>)
    ensures
        highlighter is None && !options.gfm ==> (r matches Ok(s) && s@ == spec_convert(input@)),
        highlighter is None && options.gfm ==> (r matches Ok(s) && html_of_events(input@, true, None, s@)),
        highlighter is Some ==> r is Ok,
        highlighter is Some && crate::highlight::hl_stated(highlighter) ==> (r matches Ok(s) && html_of_events(
            input@,
            options.gfm,
            highlighter,
            s@,
        )),
{
    match highlighter {
        None => convert_with(input, options),
        Some(_) => Ok(render_parsed(input, options.gfm, highlighter)),
    }
}

/// Convert Markdown to HTML with GFM, then pass the result through the
/// denylist sanitizer (see [`crate::sanitize`]). Conversion never fails.
pub fn convert_gfm_sanitized(input: &str) -> (r: Result<String, Error>)
    ensures
        r matches Ok(s) && exists|h: Seq<char>| html_of_events(input@, true, None, h) && s@ == crate::sanitize::spec_sanitize(h),
{
    match convert_gfm(input) {
        Ok(html) => Ok(crate::sanitize::sanitize_html(html.as_str())),
        Err(e) => Err(e),
    }
}

/// Parse a document body (its metadata block already stripped): line
/// endings normalized, lines split, then two passes. The first collects
/// all link reference definitions (they apply regardless of position,
/// first definition wins); the second parses with the complete set.
/// Nesting depth is bounded by the number of characters.
pub(crate) fn parse_body(body: &Vec<char>) -> (r: (Vec<Block>, RefDefs))
    ensures
        (mbs_view(r.0@), refs_view(r.1)) == spec_parse_body(body@),
{
    let norm = normalize_newlines(body);
    let raw = crate::text::split_lines(&norm);
    let ghost want = body_lines(body@);
    let ghost ls = crate::text::spec_lines(norm@);
    let mut lines: Vec<PLine> = Vec::new();
    let mut total: usize = 0;
    let mut k: usize = 0;
    while k < raw.len()
        invariant
            k <= raw@.len(),
            raw@.len() == want.len(),
            raw@.len() == ls.len(),
            forall|j: int| 0 <= j < raw@.len() ==> #[trigger] raw@[j]@ == want[j].0,
            forall|j: int| 0 <= j < raw@.len() ==> #[trigger] raw@[j]@ == ls[j],
            plines_view(lines@) == want.take(k as int),
            total as int == (if chars_in(ls.take(k as int)) < usize::MAX {
                chars_in(ls.take(k as int)) as int
            } else {
                usize::MAX as int
            }),
        decreases raw@.len() - k,
    {
        total = total.saturating_add(raw[k].len());
        assert(ls.take(k + 1).drop_last() =~= ls.take(k as int));
        let l = fresh(copy(&raw[k]));
        proof {
            lemma_plines_push(lines@, l);
            assert(want.take(k as int).push(pline_view(l)) =~= want.take(k + 1));
        }
        lines.push(l);
        k += 1;
    }
    assert(want.take(raw@.len() as int) =~= want);
    assert(ls.take(raw@.len() as int) =~= ls);
    let fuel = total.saturating_add(1);
    let mut refs = RefDefs::new();
    assert(refs_view(refs) =~= Seq::empty());
    let _ = parse_blocks_spanned(&lines, &mut refs, fuel);
    let (blocks, _) = parse_blocks_spanned(&lines, &mut refs, fuel);
    (blocks, refs)
}

/// Convert Markdown to HTML, then pass the result through the denylist
/// sanitizer (see [`crate::sanitize`]). Conversion never fails.
pub fn convert_sanitized(input: &str) -> (r: Result<String, Error>)
    ensures
        r matches Ok(s) && s@ == crate::sanitize::spec_sanitize(spec_convert(input@)),
{
    match convert(input) {
        Ok(html) => Ok(crate::sanitize::sanitize_html(html.as_str())),
        Err(e) => Err(e),
    }
}

} // verus!
