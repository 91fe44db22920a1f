#![verifier::loop_isolation(false)]

//! Markdown rendering from the AST.
//!
//! Normalizing, not verbatim: headings become ATX, thematic breaks collapse
//! to a three-character run, emphasis uses the retained delimiters, links
//! and images their retained styles, tables re-emit in pipe form, and code
//! fences widen only when the content demands it. Frontmatter re-emits
//! verbatim ahead of the body; the collected reference definitions follow
//! it, sorted by label, so reference-style links keep resolving.

use vstd::prelude::*;
use crate::ast::{Alignment, Block, CodeBlock, CodeBlockKind, Document, Image, Inline, Link, LinkStyle, List, ListItem, Table, TableCell};
use crate::frontmatter::{spec_newline, Frontmatter};
use crate::inline_parser::{push_string, RefDef};
use crate::text::{all_in_class, spec_lines, spec_utf8_len, chars_of, push_decimal, push_vec, spec_decimal, string_of};

verus! {

broadcast use vstd::string::group_string_axioms;

// ---------------------------------------------------------------------------
// Sequences of text
// ---------------------------------------------------------------------------

/// `c` repeated `n` times.
pub open spec fn repeat(c: char, n: nat) -> Seq<char> {
    Seq::new(n, |_i: int| c)
}

/// `parts` joined by `sep`.
pub open spec fn join(parts: Seq<Seq<char>>, sep: Seq<char>) -> Seq<char>
    decreases parts.len(),
{
    if parts.len() == 0 {
        Seq::empty()
    } else if parts.len() == 1 {
        parts[0]
    } else {
        join(parts.drop_last(), sep) + sep + parts.last()
    }
}

/// Runs of one character add up.
pub proof fn lemma_repeat_add(c: char, a: nat, b: nat)
    ensures
        repeat(c, a + b) == repeat(c, a) + repeat(c, b),
{
    assert(repeat(c, a + b) =~= repeat(c, a) + repeat(c, b));
}

fn push_repeat(out: &mut Vec<char>, c: char, n: usize)
    ensures
        final(out)@ == old(out)@ + repeat(c, n as nat),
{
    let mut k: usize = 0;
    while k < n
        invariant
            k <= n,
            out@ == old(out)@ + repeat(c, k as nat),
        decreases n - k,
    {
        out.push(c);
        k += 1;
        assert(out@ =~= old(out)@ + repeat(c, k as nat));
    }
}

/// Backticks ending `s`.
pub open spec fn trailing_ticks(s: Seq<char>) -> nat
    decreases s.len(),
{
    if s.len() == 0 {
        0
    } else if s.last() == '`' {
        trailing_ticks(s.drop_last()) + 1
    } else {
        0
    }
}

/// The longest run of backticks in `s`.
pub open spec fn longest_ticks(s: Seq<char>) -> nat
    decreases s.len(),
{
    if s.len() == 0 {
        0
    } else if trailing_ticks(s) > longest_ticks(s.drop_last()) {
        trailing_ticks(s)
    } else {
        longest_ticks(s.drop_last())
    }
}

/// A code span: a backtick fence one longer than any run inside, with a
/// space of padding when the content starts or ends with a backtick.
pub open spec fn code_span(c: Seq<char>) -> Seq<char> {
    let f = repeat('`', longest_ticks(c) + 1);
    if c.len() > 0 && (c[0] == '`' || c.last() == '`') {
        f + seq![' '] + c + seq![' '] + f
    } else {
        f + c + f
    }
}

/// The longest run of backticks in `s`, by one scan.
fn scan_ticks(s: &Vec<char>) -> (r: usize)
    ensures
        r == longest_ticks(s@),
{
    let mut run: usize = 0;
    let mut longest: usize = 0;
    let mut k: usize = 0;
    while k < s.len()
        invariant
            k <= s@.len(),
            run == trailing_ticks(s@.take(k as int)),
            longest == longest_ticks(s@.take(k as int)),
        decreases s@.len() - k,
    {
        let ghost p = s@.take(k as int);
        proof {
            lemma_ticks_bound(p);
            assert(s@.take(k + 1).drop_last() =~= p);
        }
        if s[k] == '`' {
            run += 1;
            if run > longest {
                longest = run;
            }
        } else {
            run = 0;
        }
        k += 1;
    }
    assert(s@.take(s@.len() as int) =~= s@);
    longest
}

proof fn lemma_ticks_bound(s: Seq<char>)
    ensures
        trailing_ticks(s) <= s.len(),
        longest_ticks(s) <= s.len(),
    decreases s.len(),
{
    if s.len() > 0 {
        lemma_ticks_bound(s.drop_last());
    }
}

fn push_code_span(out: &mut Vec<char>, c: &Vec<char>)
    ensures
        final(out)@ == old(out)@ + code_span(c@),
{
    proof {
        lemma_repeat_add('`', longest_ticks(c@), 1);
        assert(repeat('`', 1) =~= seq!['`']);
    }
    let longest = scan_ticks(c);
    let padded = c.len() > 0 && (c[0] == '`' || c[c.len() - 1] == '`');
    let ghost o = out@;
    push_repeat(out, '`', longest);
    out.push('`');
    if padded {
        out.push(' ');
    }
    push_vec(out, c);
    if padded {
        out.push(' ');
    }
    push_repeat(out, '`', longest);
    out.push('`');
    proof {
        lemma_repeat_add('`', longest as nat, 1);
        assert(repeat('`', 1) =~= seq!['`']);
    }
    assert(out@ =~= o + code_span(c@));
}

// ---------------------------------------------------------------------------
// Inlines
// ---------------------------------------------------------------------------

/// `[inner](url "title")`, the title only when non-empty.
pub open spec fn link_inline_md(inner: Seq<char>, url: Seq<char>, title: Option<String>) -> Seq<char> {
    if title is Some && title->0@.len() > 0 {
        seq!['['] + inner + seq![']', '('] + url + seq![' ', '"'] + title->0@ + seq!['"', ')']
    } else {
        seq!['['] + inner + seq![']', '('] + url + seq![')']
    }
}

/// Markdown of one inline.
pub open spec fn md_inline(i: Inline) -> Seq<char>
    decreases i,
{
    match i {
        Inline::Text(s) => s@,
        Inline::Emphasis { delimiter, content } => seq![delimiter] + md_inlines(content@) + seq![
            delimiter,
        ],
        Inline::Strong { delimiter, content } => seq![delimiter, delimiter] + md_inlines(content@)
            + seq![delimiter, delimiter],
        Inline::Strikethrough(content) => seq!['~', '~'] + md_inlines(content@) + seq!['~', '~'],
        Inline::Code(s) => code_span(s@),
        Inline::Link(link) => {
            let inner = md_inlines(link.text@);
            match link.style {
                LinkStyle::Inline => link_inline_md(inner, link.url@, link.title),
                LinkStyle::Reference(label) => seq!['['] + inner + seq![']', '['] + label@ + seq![
                    ']',
                ],
                LinkStyle::Collapsed => seq!['['] + inner + seq![']', '[', ']'],
                LinkStyle::Shortcut => seq!['['] + inner + seq![']'],
            }
        },
        Inline::Image(img) => seq!['!', '['] + img.alt@ + seq![']'] + match img.style {
            LinkStyle::Inline => seq!['('] + img.url@ + (if img.title is Some && img.title->0@.len()
                > 0 {
                seq![' ', '"'] + img.title->0@ + seq!['"']
            } else {
                Seq::empty()
            }) + seq![')'],
            LinkStyle::Reference(label) => seq!['['] + label@ + seq![']'],
            LinkStyle::Collapsed => seq!['[', ']'],
            LinkStyle::Shortcut => Seq::empty(),
        },
        Inline::Autolink(a) => if a.bare {
            a.text@
        } else {
            seq!['<'] + a.text@ + seq!['>']
        },
        Inline::RawHtml(s) => s@,
        Inline::HardBreak => seq![' ', ' ', '\n'],
        Inline::SoftBreak => seq!['\n'],
    }
}

/// Markdown of a list of inlines, concatenated.
pub open spec fn md_inlines(s: Seq<Inline>) -> Seq<char>
    decreases s,
{
    if s.len() == 0 {
        Seq::empty()
    } else {
        md_inlines(s.drop_last()) + md_inline(s.last())
    }
}

fn push_md_inline(out: &mut Vec<char>, i: &Inline)
    ensures
        final(out)@ == old(out)@ + md_inline(*i),
    decreases i,
{
    let ghost o = out@;
    match i {
        Inline::Text(s) => push_string(out, s),
        Inline::Emphasis { delimiter, content } => {
            out.push(*delimiter);
            push_md_inlines(out, content);
            out.push(*delimiter);
        },
        Inline::Strong { delimiter, content } => {
            out.push(*delimiter);
            out.push(*delimiter);
            push_md_inlines(out, content);
            out.push(*delimiter);
            out.push(*delimiter);
        },
        Inline::Strikethrough(content) => {
            out.push('~');
            out.push('~');
            push_md_inlines(out, content);
            out.push('~');
            out.push('~');
        },
        Inline::Code(s) => {
            let v = chars_of(s.as_str());
            push_code_span(out, &v);
        },
        Inline::Link(link) => {
            proof {
                assert(decreases_to!(i => link));
            }
            push_link_md(out, link);
        },
        Inline::Image(img) => push_image_md(out, img),
        Inline::Autolink(a) => {
            if a.bare {
                push_string(out, &a.text);
            } else {
                out.push('<');
                push_string(out, &a.text);
                out.push('>');
            }
        },
        Inline::RawHtml(s) => push_string(out, s),
        Inline::HardBreak => {
            out.push(' ');
            out.push(' ');
            out.push('\n');
        },
        Inline::SoftBreak => out.push('\n'),
    }
    assert(out@ =~= o + md_inline(*i));
}

fn push_title_md(out: &mut Vec<char>, title: &Option<String>)
    ensures
        final(out)@ == old(out)@ + (if title is Some && title->0@.len() > 0 {
            seq![' ', '"'] + title->0@ + seq!['"']
        } else {
            Seq::empty()
        }),
{
    let ghost o = out@;
    match title {
        Some(t) => {
            if crate::inline_parser::string_nonempty(t) {
                out.push(' ');
                out.push('"');
                push_string(out, t);
                out.push('"');
            }
        },
        None => {},
    }
    assert(out@ =~= o + (if title is Some && title->0@.len() > 0 {
        seq![' ', '"'] + title->0@ + seq!['"']
    } else {
        Seq::empty()
    }));
}

fn push_link_md(out: &mut Vec<char>, link: &Link)
    ensures
        final(out)@ == old(out)@ + md_inline(Inline::Link(Box::new(*link))),
    decreases link,
{
    let ghost o = out@;
    out.push('[');
    proof {
        assert(decreases_to!(link => link.text));
    }
    push_md_inlines(out, &link.text);
    match &link.style {
        LinkStyle::Inline => {
            out.push(']');
            out.push('(');
            push_string(out, &link.url);
            push_title_md(out, &link.title);
            out.push(')');
        },
        LinkStyle::Reference(label) => {
            out.push(']');
            out.push('[');
            push_string(out, label);
            out.push(']');
        },
        LinkStyle::Collapsed => {
            out.push(']');
            out.push('[');
            out.push(']');
        },
        LinkStyle::Shortcut => {
            out.push(']');
        },
    }
    assert(out@ =~= o + md_inline(Inline::Link(Box::new(*link))));
}

fn push_image_md(out: &mut Vec<char>, img: &Image)
    ensures
        final(out)@ == old(out)@ + md_inline(Inline::Image(Box::new(*img))),
{
    let ghost o = out@;
    out.push('!');
    out.push('[');
    push_string(out, &img.alt);
    out.push(']');
    match &img.style {
        LinkStyle::Inline => {
            out.push('(');
            push_string(out, &img.url);
            push_title_md(out, &img.title);
            out.push(')');
        },
        LinkStyle::Reference(label) => {
            out.push('[');
            push_string(out, label);
            out.push(']');
        },
        LinkStyle::Collapsed => {
            out.push('[');
            out.push(']');
        },
        LinkStyle::Shortcut => {},
    }
    assert(out@ =~= o + md_inline(Inline::Image(Box::new(*img))));
}

fn push_md_inlines(out: &mut Vec<char>, s: &Vec<Inline>)
    ensures
        final(out)@ == old(out)@ + md_inlines(s@),
    decreases s,
{
    let mut k: usize = 0;
    while k < s.len()
        invariant
            k <= s@.len(),
            out@ == old(out)@ + md_inlines(s@.take(k as int)),
        decreases s@.len() - k,
    {
        proof {
            assert(decreases_to!(s => s@));
            assert(decreases_to!(s@ => s@[k as int]));
        }
        push_md_inline(out, &s[k]);
        proof {
            let t = s@.take(k + 1);
            assert(t.drop_last() =~= s@.take(k as int));
            assert(t.last() == s@[k as int]);
        }
        k += 1;
    }
    assert(s@.take(s@.len() as int) =~= s@);
}


// ---------------------------------------------------------------------------
// Blocks
// ---------------------------------------------------------------------------

/// Bytes of the UTF-8 encoding of `s`.
pub open spec fn utf8_width(s: Seq<char>) -> nat
    decreases s.len(),
{
    if s.len() == 0 {
        0
    } else {
        utf8_width(s.drop_last()) + spec_utf8_len(s.last())
    }
}

/// The lines of a code block run together.
pub open spec fn concat_lines(lines: Seq<String>) -> Seq<char>
    decreases lines.len(),
{
    if lines.len() == 0 {
        Seq::empty()
    } else {
        concat_lines(lines.drop_last()) + lines.last()@
    }
}

/// An indented code line: blank when it holds only whitespace.
pub open spec fn indented_line_md(l: Seq<char>) -> Seq<char> {
    if all_in_class(l, 0) {
        Seq::empty()
    } else {
        seq![' ', ' ', ' ', ' '] + l
    }
}

/// Fence width: the retained length, at least three, and for backtick
/// fences longer than any backtick run in the content.
pub open spec fn fence_width(lines: Seq<String>, fence_char: char, fence_len: usize) -> nat {
    let base: nat = if fence_len < 3 {
        3
    } else {
        fence_len as nat
    };
    let need = longest_ticks(concat_lines(lines)) + 1;
    if fence_char == '`' && need > base {
        need
    } else {
        base
    }
}

/// Each line preceded by a line feed.
pub open spec fn fenced_body_md(lines: Seq<String>) -> Seq<char>
    decreases lines.len(),
{
    if lines.len() == 0 {
        Seq::empty()
    } else {
        fenced_body_md(lines.drop_last()) + seq!['\n'] + lines.last()@
    }
}

pub open spec fn code_md(code: CodeBlock) -> Seq<char> {
    match code.kind {
        CodeBlockKind::Indented => join(
            code.lines@.map_values(|l: String| indented_line_md(l@)),
            seq!['\n'],
        ),
        CodeBlockKind::Fenced { fence_char, fence_len } => {
            let f = repeat(fence_char, fence_width(code.lines@, fence_char, fence_len));
            f + code.info@ + fenced_body_md(code.lines@) + seq!['\n'] + f
        },
    }
}

/// A quoted line: `>` alone for an empty line.
pub open spec fn quote_line_md(l: Seq<char>) -> Seq<char> {
    if l.len() == 0 {
        seq!['>']
    } else {
        seq!['>', ' '] + l
    }
}

/// Quote the lines of rendered content.
pub open spec fn quote_md(inner: Seq<char>) -> Seq<char> {
    if inner.len() == 0 {
        seq!['>']
    } else {
        join(spec_lines(inner).map_values(|l: Seq<char>| quote_line_md(l)), seq!['\n'])
    }
}

/// A table cell's text in pipe form: `|` escaped, line feeds as spaces.
pub open spec fn escape_cell_md(s: Seq<char>) -> Seq<char>
    decreases s.len(),
{
    if s.len() == 0 {
        Seq::empty()
    } else {
        escape_cell_md(s.drop_last()) + (if s.last() == '|' {
            seq!['\\', '|']
        } else if s.last() == '\n' {
            seq![' ']
        } else {
            seq![s.last()]
        })
    }
}

/// Cell `k` of a row, empty past its end.
pub open spec fn cell_md(cells: Seq<TableCell>, k: int) -> Seq<char> {
    if 0 <= k < cells.len() {
        escape_cell_md(md_inlines(cells[k].content@))
    } else {
        Seq::empty()
    }
}

/// The first `n` cells of a row, each as ` text |`.
pub open spec fn row_md(cells: Seq<TableCell>, n: int) -> Seq<char>
    decreases n,
{
    if n <= 0 {
        Seq::empty()
    } else {
        row_md(cells, n - 1) + seq![' '] + cell_md(cells, n - 1) + seq![' ', '|']
    }
}

pub open spec fn delim_md(a: Alignment) -> Seq<char> {
    match a {
        Alignment::Unset => seq!['-', '-', '-'],
        Alignment::Left => seq![':', '-', '-'],
        Alignment::Center => seq![':', '-', ':'],
        Alignment::Right => seq!['-', '-', ':'],
    }
}

/// A heading's level survives a round trip: the Markdown written for a
/// heading of level 1 to 6, whose inline Markdown neither starts nor ends
/// with a blank nor ends with `#`, reads back as a heading of that level
/// with that text.
pub proof fn law_heading_md_round_trip(b: Block, phase: int)
    requires
        b matches Block::Heading(h) && 1 <= h.level <= 6 && md_inlines(h.content@).len() > 0
            && !crate::text::spec_is_whitespace(md_inlines(h.content@)[0]) && !crate::text::spec_is_whitespace(
            md_inlines(h.content@).last(),
        ) && md_inlines(h.content@).last() != '#',
    ensures
        b matches Block::Heading(h) && crate::markdown_to_html::spec_atx(md_block(b), phase) == Some(
            (h.level, md_inlines(h.content@), false),
        ),
{
    if let Block::Heading(h) = b {
        crate::markdown_to_html::law_atx_level(h.level as nat, md_inlines(h.content@), phase);
        assert(md_block(b) == repeat('#', h.level as nat) + seq![' '] + md_inlines(h.content@));
    }
}

/// Every column alignment survives a round trip: the delimiter cell
/// written for it reads back, as a table delimiter cell, as the same
/// alignment.
pub proof fn law_delim_cell_round_trip(a: Alignment)
    ensures
        crate::markdown_to_html::spec_delim_cell(delim_md(a)) matches Some(p) && crate::ast::spec_alignment_of(p)
            == a,
{
    let c = delim_md(a);
    assert(c.len() == 3);
    assert(!(exists|k: int| 1 <= k < 2 && #[trigger] c[k] != '-'));
    assert(!(exists|k: int| 0 <= k < 2 && #[trigger] c[k] != '-') || a is Left || a is Center);
    assert(!(exists|k: int| 1 <= k < 3 && #[trigger] c[k] != '-') || a is Right || a is Center || a is Unset);
    assert(!(exists|k: int| 0 <= k < 3 && #[trigger] c[k] != '-') || !(a is Unset));
}

/// The delimiter row's first `n` columns.
pub open spec fn delims_md(aligns: Seq<Alignment>, n: int) -> Seq<char>
    decreases n,
{
    if n <= 0 {
        Seq::empty()
    } else {
        delims_md(aligns, n - 1) + seq![' '] + delim_md(crate::ast::align_of(aligns, n - 1)) + seq![
            ' ',
            '|',
        ]
    }
}

spec fn delim_cell_src(aligns: Seq<Alignment>, k: int) -> Seq<char> {
    seq![' '] + delim_md(crate::ast::align_of(aligns, k)) + seq![' ', '|']
}

proof fn lemma_delims_md_prefix(aligns: Seq<Alignment>, m: int, n: int)
    requires
        0 <= m <= n,
    ensures
        delims_md(aligns, n).len() == 6 * n,
        delims_md(aligns, m + 1) == delims_md(aligns, m) + delim_cell_src(aligns, m),
        m <= n ==> delims_md(aligns, n).subrange(0, 6 * m) == delims_md(aligns, m),
    decreases n,
{
    let d = delim_md(crate::ast::align_of(aligns, m));
    assert(d.len() == 3);
    assert(delims_md(aligns, m) + seq![' '] + d + seq![' ', '|'] =~= delims_md(aligns, m) + delim_cell_src(aligns, m));
    if n > 0 {
        lemma_delims_md_prefix(aligns, if m < n { m } else { n - 1 }, n - 1);
        let dn = delim_md(crate::ast::align_of(aligns, n - 1));
        assert(dn.len() == 3);
        if m < n {
            lemma_delims_md_prefix(aligns, m, n - 1);
            assert(delims_md(aligns, n).subrange(0, 6 * m) =~= delims_md(aligns, n - 1).subrange(0, 6 * m));
        } else {
            assert(delims_md(aligns, n).subrange(0, 6 * m) =~= delims_md(aligns, n));
        }
    } else {
        assert(delims_md(aligns, n).subrange(0, 6 * m) =~= Seq::<char>::empty());
    }
}

proof fn lemma_delim_row_cells(l: Seq<char>, aligns: Seq<Alignment>, n: int, k: int)
    requires
        0 <= k <= n,
        l == seq!['|'] + delims_md(aligns, n),
    ensures
        crate::markdown_to_html::cells_from(l, 1 + 6 * k, Seq::empty(), true) == Seq::new(
            (n - k) as nat,
            |q: int| delim_md(crate::ast::align_of(aligns, k + q)),
        ),
    decreases n - k,
{
    lemma_delims_md_prefix(aligns, k, n);
    if k == n {
        assert(Seq::new(0nat, |q: int| delim_md(crate::ast::align_of(aligns, k + q))) =~= Seq::<Seq<char>>::empty());
    } else {
        lemma_delims_md_prefix(aligns, k + 1, n);
        let i = 1 + 6 * k;
        let c = delim_cell_src(aligns, k);
        let d = delim_md(crate::ast::align_of(aligns, k));
        assert forall|j: int| 0 <= j < 6 implies l[i + j] == #[trigger] c[j] by {
            assert(l[i + j] == delims_md(aligns, n)[6 * k + j]);
            assert(delims_md(aligns, n)[6 * k + j] == delims_md(aligns, n).subrange(0, 6 * (k + 1))[6 * k + j]);
            assert(delims_md(aligns, k + 1)[6 * k + j] == c[j]);
        }
        assert(c[0] == ' ' && c[1] == d[0] && c[2] == d[1] && c[3] == d[2] && c[4] == ' ' && c[5] == '|');
        assert(l[i] == ' ' && l[i + 1] == d[0] && l[i + 2] == d[1] && l[i + 3] == d[2] && l[i + 4] == ' ' && l[i + 5] == '|');
        assert(d[0] != '\\' && d[0] != '|' && d[1] != '\\' && d[1] != '|' && d[2] != '\\' && d[2] != '|');
        let e: Seq<char> = Seq::empty();
        let cur = seq![' ', d[0], d[1], d[2], ' '];
        assert(e.push(' ') =~= seq![' ']);
        assert(seq![' '].push(d[0]) =~= seq![' ', d[0]]);
        assert(seq![' ', d[0]].push(d[1]) =~= seq![' ', d[0], d[1]]);
        assert(seq![' ', d[0], d[1]].push(d[2]) =~= seq![' ', d[0], d[1], d[2]]);
        assert(seq![' ', d[0], d[1], d[2]].push(' ') =~= cur);
        let rest = crate::markdown_to_html::cells_from(l, i + 6, Seq::empty(), true);
        assert(crate::markdown_to_html::cells_from(l, i + 5, cur, false) == seq![crate::text::spec_trim(cur, 0)] + rest);
        assert(crate::markdown_to_html::cells_from(l, i + 4, seq![' ', d[0], d[1], d[2]], false) == seq![crate::text::spec_trim(cur, 0)] + rest);
        assert(crate::markdown_to_html::cells_from(l, i + 3, seq![' ', d[0], d[1]], false) == seq![crate::text::spec_trim(cur, 0)] + rest);
        assert(crate::markdown_to_html::cells_from(l, i + 2, seq![' ', d[0]], false) == seq![crate::text::spec_trim(cur, 0)] + rest);
        assert(crate::markdown_to_html::cells_from(l, i + 1, seq![' '], false) == seq![crate::text::spec_trim(cur, 0)] + rest);
        assert(crate::markdown_to_html::cells_from(l, i, e, true) == seq![crate::text::spec_trim(cur, 0)] + rest);
        assert(crate::text::in_class(0, ' '));
        assert(!crate::text::in_class(0, d[0]) && !crate::text::in_class(0, d[2]));
        assert(crate::text::lead_end(cur, 0, 1) == 1);
        assert(crate::text::lead_end(cur, 0, 0) == 1);
        let c1 = cur.skip(1);
        assert(c1 =~= seq![d[0], d[1], d[2], ' ']);
        assert(crate::text::trail_start(c1, 0, 3) == 3);
        assert(crate::text::trail_start(c1, 0, 4) == 3);
        assert(c1.take(3) =~= d);
        assert(crate::text::spec_trim(cur, 0) == d);
        lemma_delim_row_cells(l, aligns, n, k + 1);
        assert(1 + 6 * (k + 1) == i + 6);
        assert(seq![d] + rest =~= Seq::new(
            (n - k) as nat,
            |q: int| delim_md(crate::ast::align_of(aligns, k + q)),
        ));
    }
}

proof fn lemma_delim_cells_back(cells: Seq<Seq<char>>, aligns: Seq<Alignment>, n: int, k: int)
    requires
        0 <= k <= n,
        cells == Seq::new(n as nat, |q: int| delim_md(crate::ast::align_of(aligns, q))),
    ensures
        crate::markdown_to_html::delim_cells_from(cells, k) matches Some(r) && r.len() == n - k && forall|q: int|
            0 <= q < n - k ==> crate::ast::spec_alignment_of(#[trigger] r[q]) == crate::ast::align_of(aligns, k + q),
    decreases n - k,
{
    if k < n {
        lemma_delim_cells_back(cells, aligns, n, k + 1);
        law_delim_cell_round_trip(crate::ast::align_of(aligns, k));
        let r1 = crate::markdown_to_html::delim_cells_from(cells, k + 1)->Some_0;
        let p = crate::markdown_to_html::spec_delim_cell(cells[k])->Some_0;
        let r = seq![p] + r1;
        assert forall|q: int| 0 <= q < n - k implies crate::ast::spec_alignment_of(#[trigger] r[q])
            == crate::ast::align_of(aligns, k + q) by {
            if q > 0 {
                assert(r[q] == r1[q - 1]);
            }
        }
    }
}

/// Every table's alignments survive a round trip: the delimiter row
/// written for `n` columns reads back, as a table delimiter row, as `n`
/// columns with the same alignments.
pub proof fn law_delim_row_round_trip(aligns: Seq<Alignment>, n: int, phase: int)
    requires
        n > 0,
    ensures
        crate::markdown_to_html::spec_delim_row(seq!['|'] + delims_md(aligns, n), phase) matches Some(als) && als.len()
            == n && forall|q: int| 0 <= q < n ==> crate::ast::spec_alignment_of(#[trigger] als[q]) == crate::ast::align_of(aligns, q),
{
    let l = seq!['|'] + delims_md(aligns, n);
    lemma_delims_md_prefix(aligns, n - 1, n);
    let last = delim_cell_src(aligns, n - 1);
    assert(l.last() == last[5]);
    assert(!crate::text::in_class(0, '|'));
    assert(crate::text::lead_end(l, 0, 0) == 0);
    assert(l.skip(0) =~= l);
    assert(crate::text::trail_start(l, 0, l.len() as int) == l.len());
    assert(l.take(l.len() as int) =~= l);
    assert(crate::text::spec_trim(l, 0) == l);
    lemma_delim_row_cells(l, aligns, n, 0);
    let cells = Seq::new(n as nat, |q: int| delim_md(crate::ast::align_of(aligns, q)));
    assert(crate::markdown_to_html::spec_row_cells(l) =~= cells);
    lemma_delim_cells_back(cells, aligns, n, 0);
    assert(crate::markdown_to_html::ws_scan(l, phase, 0, 0).1 == 0);
}

/// Body rows, each on a line of its own, cut or padded to `n` cells.
pub open spec fn rows_md(rows: Seq<Vec<TableCell>>, n: int) -> Seq<char>
    decreases rows.len(),
{
    if rows.len() == 0 {
        Seq::empty()
    } else {
        rows_md(rows.drop_last(), n) + seq!['\n', '|'] + row_md(rows.last()@, n)
    }
}

/// A pipe table; nothing for a table without header cells.
pub open spec fn table_md(t: Table) -> Seq<char> {
    let n = t.header@.len() as int;
    if n == 0 {
        Seq::empty()
    } else {
        seq!['|'] + row_md(t.header@, n) + seq!['\n', '|'] + delims_md(t.alignments@, n) + rows_md(
            t.rows@,
            n,
        )
    }
}

/// The number of item `k` of a list starting at `start` (wrapping).
pub open spec fn item_number(start: u32, k: int) -> u32 {
    ((start as int + k) % 0x1_0000_0000) as u32
}

/// An item's marker: number and delimiter, or the bullet.
pub open spec fn marker_md(list: List, n: u32) -> Seq<char> {
    if list.ordered {
        spec_decimal(n as nat) + seq![
            if list.delimiter == '\0' {
                '.'
            } else {
                list.delimiter
            },
        ]
    } else {
        seq![
            if list.bullet == '\0' {
                '-'
            } else {
                list.bullet
            },
        ]
    }
}

/// A task item's box with its trailing space.
pub open spec fn task_md(task: Option<bool>) -> Seq<char> {
    match task {
        Some(true) => seq!['[', 'x', ']', ' '],
        Some(false) => seq!['[', ' ', ']', ' '],
        None => Seq::empty(),
    }
}

/// A task item's box without the trailing space.
pub open spec fn task_md_bare(task: Option<bool>) -> Seq<char> {
    match task {
        Some(true) => seq!['[', 'x', ']'],
        Some(false) => seq!['[', ' ', ']'],
        None => Seq::empty(),
    }
}

/// Indentation of an item's continuation lines: one column past the marker.
pub open spec fn pad_md(marker: Seq<char>) -> Seq<char> {
    repeat(' ', utf8_width(marker) + 1)
}

/// `text` with each line feed replaced by `with`.
pub open spec fn replace_nl(text: Seq<char>, with: Seq<char>) -> Seq<char>
    decreases text.len(),
{
    if text.len() == 0 {
        Seq::empty()
    } else {
        replace_nl(text.drop_last(), with) + (if text.last() == '\n' {
            with
        } else {
            seq![text.last()]
        })
    }
}

/// A line of a nested block under an item: indented unless empty.
pub open spec fn pad_line_md(pad: Seq<char>, l: Seq<char>) -> Seq<char> {
    if l.len() == 0 {
        l
    } else {
        pad + l
    }
}

/// The lines of a rendered nested block under an item; the pad alone for
/// a block that renders empty.
pub open spec fn block_lines_md(pad: Seq<char>, rendered: Seq<char>) -> Seq<Seq<char>> {
    spec_lines(rendered).map_values(|l: Seq<char>| pad_line_md(pad, l)) + (if rendered.len() == 0 {
        seq![pad]
    } else {
        Seq::empty()
    })
}

/// Separator between two lists of items.
pub open spec fn list_sep(tight: bool) -> Seq<char> {
    if tight {
        seq!['\n']
    } else {
        seq!['\n', '\n']
    }
}

/// Markdown of one block.
pub open spec fn md_block(b: Block) -> Seq<char>
    decreases b, 0nat,
{
    match b {
        Block::Paragraph(inl) => md_inlines(inl@),
        Block::Heading(h) => repeat('#', h.level as nat) + seq![' '] + md_inlines(h.content@),
        Block::ThematicBreak(tb) => repeat(tb.marker, 3),
        Block::CodeBlock(code) => code_md(code),
        Block::HtmlBlock(lines) => join(lines@.map_values(|l: String| l@), seq!['\n']),
        Block::BlockQuote(children) => quote_md(md_blocks(children@)),
        Block::List(list) => items_md(list, list.items@, list.items@.len() as int),
        Block::Table(t) => table_md(*t),
    }
}

/// The first `k` blocks, separated by blank lines.
pub open spec fn md_join(bs: Seq<Block>, k: int) -> Seq<char>
    decreases bs, k,
{
    if k <= 0 || k > bs.len() {
        Seq::empty()
    } else if k == 1 {
        md_block(bs[0])
    } else {
        md_join(bs, k - 1) + seq!['\n', '\n'] + md_block(bs[k - 1])
    }
}

/// Markdown of a block sequence: blocks separated by blank lines, with a
/// final line feed; nothing for no blocks.
pub open spec fn md_blocks(bs: Seq<Block>) -> Seq<char>
    decreases bs, bs.len() + 1,
{
    if bs.len() == 0 {
        Seq::empty()
    } else {
        md_join(bs, bs.len() as int) + seq!['\n']
    }
}

/// The first `k` items of a list, separated per tightness.
pub open spec fn items_md(list: List, items: Seq<ListItem>, k: int) -> Seq<char>
    decreases items, k,
{
    if k <= 0 || k > items.len() {
        Seq::empty()
    } else if k == 1 {
        md_item(marker_md(list, item_number(list.start, 0)), list.tight, items[0])
    } else {
        items_md(list, items, k - 1) + list_sep(list.tight) + md_item(
            marker_md(list, item_number(list.start, k - 1)),
            list.tight,
            items[k - 1],
        )
    }
}

/// Markdown of one item under `marker`: its lines joined by line feeds.
pub open spec fn md_item(marker: Seq<char>, tight: bool, item: ListItem) -> Seq<char>
    decreases item, 0nat,
{
    if item.blocks@.len() == 0 {
        marker
    } else {
        join(
            item_lines_md(marker, item.task, tight, item.blocks@, item.blocks@.len() as int),
            seq!['\n'],
        )
    }
}

/// The lines of an item's first block. A leading paragraph shares the
/// marker's line, its soft-wrapped lines under the pad; another block
/// starts under a line holding the marker alone.
pub open spec fn first_lines_md(marker: Seq<char>, task: Option<bool>, b: Block) -> Seq<Seq<char>>
    decreases b, 1nat,
{
    match b {
        Block::Paragraph(inl) => {
            let text = md_inlines(inl@);
            if text.len() == 0 {
                seq![marker + seq![' '] + task_md_bare(task)]
            } else {
                seq![
                    marker + seq![' '] + task_md(task) + replace_nl(
                        text,
                        seq!['\n'] + pad_md(marker),
                    ),
                ]
            }
        },
        _ => seq![marker] + block_lines_md(pad_md(marker), md_block(b)),
    }
}

/// The lines of an item's first `k` blocks; in a loose list a blank line
/// stands between blocks.
pub open spec fn item_lines_md(
    marker: Seq<char>,
    task: Option<bool>,
    tight: bool,
    bs: Seq<Block>,
    k: int,
) -> Seq<Seq<char>>
    decreases bs, k,
{
    if k <= 0 || k > bs.len() {
        Seq::empty()
    } else if k == 1 {
        first_lines_md(marker, task, bs[0])
    } else {
        item_lines_md(marker, task, tight, bs, k - 1) + (if tight {
            Seq::empty()
        } else {
            seq![Seq::<char>::empty()]
        }) + block_lines_md(pad_md(marker), md_block(bs[k - 1]))
    }
}


/// `join` gains one more part.
proof fn lemma_join_push(parts: Seq<Seq<char>>, x: Seq<char>, sep: Seq<char>)
    ensures
        join(parts.push(x), sep) == (if parts.len() == 0 {
            x
        } else {
            join(parts, sep) + sep + x
        }),
{
    assert(parts.push(x).drop_last() =~= parts);
}

/// Append one more line to lines joined by line feeds.
fn push_line(
    out: &mut Vec<char>,
    first: bool,
    line: &Vec<char>,
    Ghost(base): Ghost<Seq<char>>,
    Ghost(ls): Ghost<Seq<Seq<char>>>,
)
    requires
        old(out)@ == base + join(ls, seq!['\n']),
        first == (ls.len() == 0),
    ensures
        final(out)@ == base + join(ls.push(line@), seq!['\n']),
{
    proof {
        lemma_join_push(ls, line@, seq!['\n']);
    }
    if !first {
        out.push('\n');
    }
    push_vec(out, line);
    assert(out@ =~= base + join(ls.push(line@), seq!['\n']));
}

fn push_fenced_md(out: &mut Vec<char>, code: &CodeBlock, fence_char: char, fence_len: usize)
    requires
        code.kind == (CodeBlockKind::Fenced { fence_char, fence_len }),
    ensures
        final(out)@ == old(out)@ + code_md(*code),
{
    let ghost o = out@;
    let n = code.lines.len();
    let mut all: Vec<char> = Vec::new();
    let mut k: usize = 0;
    while k < n
        invariant
            k <= n,
            n == code.lines@.len(),
            all@ == concat_lines(code.lines@.take(k as int)),
        decreases n - k,
    {
        push_string(&mut all, &code.lines[k]);
        proof {
            assert(code.lines@.take(k + 1).drop_last() =~= code.lines@.take(k as int));
        }
        k += 1;
    }
    assert(code.lines@.take(n as int) =~= code.lines@);
    let longest = scan_ticks(&all);
    let base: usize = if fence_len < 3 {
        3
    } else {
        fence_len
    };
    let mut fence: Vec<char> = Vec::new();
    if fence_char == '`' && longest >= base {
        push_repeat(&mut fence, fence_char, longest);
        fence.push(fence_char);
        proof {
            lemma_repeat_add(fence_char, longest as nat, 1);
            assert(repeat(fence_char, 1) =~= seq![fence_char]);
            assert(fence@ =~= repeat(fence_char, longest as nat + 1));
        }
    } else {
        push_repeat(&mut fence, fence_char, base);
    }
    assert(fence@ == repeat(fence_char, fence_width(code.lines@, fence_char, fence_len)));
    push_vec(out, &fence);
    push_string(out, &code.info);
    let ghost mid = out@;
    let mut k: usize = 0;
    while k < n
        invariant
            k <= n,
            n == code.lines@.len(),
            out@ == mid + fenced_body_md(code.lines@.take(k as int)),
        decreases n - k,
    {
        out.push('\n');
        push_string(out, &code.lines[k]);
        proof {
            assert(code.lines@.take(k + 1).drop_last() =~= code.lines@.take(k as int));
        }
        k += 1;
    }
    out.push('\n');
    push_vec(out, &fence);
    assert(out@ =~= o + code_md(*code));
}

fn push_code_md(out: &mut Vec<char>, code: &CodeBlock)
    ensures
        final(out)@ == old(out)@ + code_md(*code),
{
    match code.kind {
        CodeBlockKind::Indented => {
            let ghost o = out@;
            let ghost ls = code.lines@.map_values(|l: String| indented_line_md(l@));
            let n = code.lines.len();
            let mut k: usize = 0;
            while k < n
                invariant
                    k <= n,
                    n == code.lines@.len(),
                    ls == code.lines@.map_values(|l: String| indented_line_md(l@)),
                    out@ == o + join(ls.take(k as int), seq!['\n']),
                decreases n - k,
            {
                let v = chars_of(code.lines[k].as_str());
                let mut line: Vec<char> = Vec::new();
                if !crate::text::all_class(&v, 0) {
                    line.push(' ');
                    line.push(' ');
                    line.push(' ');
                    line.push(' ');
                    push_vec(&mut line, &v);
                }
                assert(line@ =~= ls[k as int]);
                push_line(out, k == 0, &line, Ghost(o), Ghost(ls.take(k as int)));
                assert(ls.take(k as int).push(line@) =~= ls.take(k + 1));
                k += 1;
            }
            assert(ls.take(n as int) =~= ls);
        },
        CodeBlockKind::Fenced { fence_char, fence_len } => {
            push_fenced_md(out, code, fence_char, fence_len);
        },
    }
}

fn push_html_lines_md(out: &mut Vec<char>, lines: &Vec<String>)
    ensures
        final(out)@ == old(out)@ + join(lines@.map_values(|l: String| l@), seq!['\n']),
{
    let ghost o = out@;
    let ghost ls = lines@.map_values(|l: String| l@);
    let n = lines.len();
    let mut k: usize = 0;
    while k < n
        invariant
            k <= n,
            n == lines@.len(),
            ls == lines@.map_values(|l: String| l@),
            out@ == o + join(ls.take(k as int), seq!['\n']),
        decreases n - k,
    {
        let v = chars_of(lines[k].as_str());
        push_line(out, k == 0, &v, Ghost(o), Ghost(ls.take(k as int)));
        assert(ls.take(k as int).push(v@) =~= ls.take(k + 1));
        k += 1;
    }
    assert(ls.take(n as int) =~= ls);
}

fn push_quote_md(out: &mut Vec<char>, inner: &Vec<char>)
    ensures
        final(out)@ == old(out)@ + quote_md(inner@),
{
    if inner.len() == 0 {
        out.push('>');
        return;
    }
    let ghost o = out@;
    let lines = crate::text::split_lines(inner);
    let ghost ls = spec_lines(inner@).map_values(|l: Seq<char>| quote_line_md(l));
    let n = lines.len();
    let mut k: usize = 0;
    while k < n
        invariant
            k <= n,
            n == lines@.len(),
            n == spec_lines(inner@).len(),
            forall|j: int| 0 <= j < n ==> #[trigger] lines@[j]@ == spec_lines(inner@)[j],
            ls == spec_lines(inner@).map_values(|l: Seq<char>| quote_line_md(l)),
            out@ == o + join(ls.take(k as int), seq!['\n']),
        decreases n - k,
    {
        let mut q: Vec<char> = Vec::new();
        q.push('>');
        if lines[k].len() > 0 {
            q.push(' ');
            push_vec(&mut q, &lines[k]);
        }
        assert(q@ =~= ls[k as int]);
        push_line(out, k == 0, &q, Ghost(o), Ghost(ls.take(k as int)));
        assert(ls.take(k as int).push(q@) =~= ls.take(k + 1));
        k += 1;
    }
    assert(ls.take(n as int) =~= ls);
}

// Tables

fn push_escaped_cell(out: &mut Vec<char>, s: &Vec<char>)
    ensures
        final(out)@ == old(out)@ + escape_cell_md(s@),
{
    let ghost o = out@;
    let mut k: usize = 0;
    while k < s.len()
        invariant
            k <= s@.len(),
            out@ == o + escape_cell_md(s@.take(k as int)),
        decreases s@.len() - k,
    {
        let c = s[k];
        if c == '|' {
            out.push('\\');
            out.push('|');
        } else if c == '\n' {
            out.push(' ');
        } else {
            out.push(c);
        }
        proof {
            assert(s@.take(k + 1).drop_last() =~= s@.take(k as int));
        }
        assert(out@ =~= o + escape_cell_md(s@.take(k + 1)));
        k += 1;
    }
    assert(s@.take(s@.len() as int) =~= s@);
}

fn push_row_md(out: &mut Vec<char>, cells: &Vec<TableCell>, n: usize)
    ensures
        final(out)@ == old(out)@ + row_md(cells@, n as int),
{
    let ghost o = out@;
    let mut j: usize = 0;
    while j < n
        invariant
            j <= n,
            out@ == o + row_md(cells@, j as int),
        decreases n - j,
    {
        out.push(' ');
        if j < cells.len() {
            let mut t: Vec<char> = Vec::new();
            push_md_inlines(&mut t, &cells[j].content);
            assert(t@ =~= md_inlines(cells@[j as int].content@));
            push_escaped_cell(out, &t);
        }
        out.push(' ');
        out.push('|');
        assert(out@ =~= o + row_md(cells@, j + 1));
        j += 1;
    }
}

fn push_delim_md(out: &mut Vec<char>, a: Alignment)
    ensures
        final(out)@ == old(out)@ + delim_md(a),
{
    let ghost o = out@;
    match a {
        Alignment::Unset => {
            out.push('-');
            out.push('-');
            out.push('-');
        },
        Alignment::Left => {
            out.push(':');
            out.push('-');
            out.push('-');
        },
        Alignment::Center => {
            out.push(':');
            out.push('-');
            out.push(':');
        },
        Alignment::Right => {
            out.push('-');
            out.push('-');
            out.push(':');
        },
    }
    assert(out@ =~= o + delim_md(a));
}

fn push_table_md(out: &mut Vec<char>, t: &Table)
    ensures
        final(out)@ == old(out)@ + table_md(*t),
{
    let ghost o = out@;
    let n = t.header.len();
    if n == 0 {
        assert(out@ =~= o + table_md(*t));
        return;
    }
    out.push('|');
    push_row_md(out, &t.header, n);
    out.push('\n');
    out.push('|');
    let ghost mid = out@;
    let mut j: usize = 0;
    while j < n
        invariant
            j <= n,
            out@ == mid + delims_md(t.alignments@, j as int),
        decreases n - j,
    {
        let a = if j < t.alignments.len() {
            t.alignments[j]
        } else {
            Alignment::Unset
        };
        assert(a == crate::ast::align_of(t.alignments@, j as int));
        out.push(' ');
        push_delim_md(out, a);
        out.push(' ');
        out.push('|');
        assert(out@ =~= mid + delims_md(t.alignments@, j + 1));
        j += 1;
    }
    let ghost mid2 = out@;
    let mut q: usize = 0;
    while q < t.rows.len()
        invariant
            q <= t.rows@.len(),
            out@ == mid2 + rows_md(t.rows@.take(q as int), n as int),
        decreases t.rows@.len() - q,
    {
        out.push('\n');
        out.push('|');
        push_row_md(out, &t.rows[q], n);
        proof {
            assert(t.rows@.take(q + 1).drop_last() =~= t.rows@.take(q as int));
        }
        assert(out@ =~= mid2 + rows_md(t.rows@.take(q + 1), n as int));
        q += 1;
    }
    assert(t.rows@.take(t.rows@.len() as int) =~= t.rows@);
    assert(out@ =~= o + table_md(*t));
}

// Lists

fn push_task_md(out: &mut Vec<char>, task: Option<bool>, bare: bool)
    ensures
        final(out)@ == old(out)@ + (if bare {
            task_md_bare(task)
        } else {
            task_md(task)
        }),
{
    let ghost o = out@;
    match task {
        Some(done) => {
            out.push('[');
            out.push(if done {
                'x'
            } else {
                ' '
            });
            out.push(']');
            if !bare {
                out.push(' ');
            }
        },
        None => {},
    }
    assert(out@ =~= o + (if bare {
        task_md_bare(task)
    } else {
        task_md(task)
    }));
}

fn marker_vec(list: &List, n: u32) -> (r: Vec<char>)
    ensures
        r@ == marker_md(*list, n),
{
    let mut r: Vec<char> = Vec::new();
    if list.ordered {
        push_decimal(&mut r, n);
        r.push(
            if list.delimiter == '\0' {
                '.'
            } else {
                list.delimiter
            },
        );
    } else {
        r.push(
            if list.bullet == '\0' {
                '-'
            } else {
                list.bullet
            },
        );
    }
    assert(r@ =~= marker_md(*list, n));
    r
}

fn pad_vec(marker: &Vec<char>) -> (r: Vec<char>)
    ensures
        r@ == pad_md(marker@),
{
    let mut r: Vec<char> = Vec::new();
    let mut k: usize = 0;
    while k < marker.len()
        invariant
            k <= marker@.len(),
            r@ == repeat(' ', utf8_width(marker@.take(k as int))),
        decreases marker@.len() - k,
    {
        let w = crate::text::utf8_len(marker[k]);
        push_repeat(&mut r, ' ', w);
        proof {
            assert(marker@.take(k + 1).drop_last() =~= marker@.take(k as int));
            lemma_repeat_add(' ', utf8_width(marker@.take(k as int)), w as nat);
        }
        k += 1;
    }
    assert(marker@.take(marker@.len() as int) =~= marker@);
    r.push(' ');
    proof {
        lemma_repeat_add(' ', utf8_width(marker@), 1);
        assert(repeat(' ', 1) =~= seq![' ']);
    }
    r
}

fn push_replace_nl(out: &mut Vec<char>, text: &Vec<char>, with: &Vec<char>)
    ensures
        final(out)@ == old(out)@ + replace_nl(text@, with@),
{
    let ghost o = out@;
    let mut k: usize = 0;
    while k < text.len()
        invariant
            k <= text@.len(),
            out@ == o + replace_nl(text@.take(k as int), with@),
        decreases text@.len() - k,
    {
        if text[k] == '\n' {
            push_vec(out, with);
        } else {
            out.push(text[k]);
        }
        proof {
            assert(text@.take(k + 1).drop_last() =~= text@.take(k as int));
        }
        assert(out@ =~= o + replace_nl(text@.take(k + 1), with@));
        k += 1;
    }
    assert(text@.take(text@.len() as int) =~= text@);
}

/// Append the lines of a nested block under an item.
fn push_block_lines(
    out: &mut Vec<char>,
    pad: &Vec<char>,
    b: &Block,
    Ghost(base): Ghost<Seq<char>>,
    Ghost(ls): Ghost<Seq<Seq<char>>>,
)
    requires
        old(out)@ == base + join(ls, seq!['\n']),
        ls.len() > 0,
    ensures
        final(out)@ == base + join(ls + block_lines_md(pad@, md_block(*b)), seq!['\n']),
    decreases b, 1usize,
{
    let mut r: Vec<char> = Vec::new();
    push_md_block(&mut r, b);
    assert(r@ =~= md_block(*b));
    let lines = crate::text::split_lines(&r);
    let ghost nl = spec_lines(r@).map_values(|l: Seq<char>| pad_line_md(pad@, l));
    let n = lines.len();
    let mut k: usize = 0;
    while k < n
        invariant
            k <= n,
            n == lines@.len(),
            n == spec_lines(r@).len(),
            forall|j: int| 0 <= j < n ==> #[trigger] lines@[j]@ == spec_lines(r@)[j],
            nl == spec_lines(r@).map_values(|l: Seq<char>| pad_line_md(pad@, l)),
            ls.len() > 0,
            out@ == base + join(ls + nl.take(k as int), seq!['\n']),
        decreases n - k,
    {
        let mut line: Vec<char> = Vec::new();
        if lines[k].len() > 0 {
            push_vec(&mut line, pad);
            push_vec(&mut line, &lines[k]);
        }
        assert(line@ =~= nl[k as int]);
        push_line(out, false, &line, Ghost(base), Ghost(ls + nl.take(k as int)));
        assert((ls + nl.take(k as int)).push(line@) =~= ls + nl.take(k + 1));
        k += 1;
    }
    assert(nl.take(n as int) =~= nl);
    if r.len() == 0 {
        push_line(out, false, pad, Ghost(base), Ghost(ls + nl));
        assert((ls + nl).push(pad@) =~= ls + block_lines_md(pad@, md_block(*b)));
    } else {
        assert(ls + nl =~= ls + block_lines_md(pad@, md_block(*b)));
    }
}

#[verifier::spinoff_prover]
fn push_md_item(out: &mut Vec<char>, marker: &Vec<char>, tight: bool, item: &ListItem)
    ensures
        final(out)@ == old(out)@ + md_item(marker@, tight, *item),
    decreases item, 0usize,
{
    let bs = &item.blocks;
    let n = bs.len();
    if n == 0 {
        push_vec(out, marker);
        return;
    }
    let ghost o = out@;
    let pad = pad_vec(marker);
    proof {
        assert(decreases_to!(item => item.blocks));
        assert(decreases_to!(item.blocks => item.blocks@));
        assert(decreases_to!(item.blocks@ => item.blocks@[0]));
    }
    match &bs[0] {
        Block::Paragraph(inl) => {
            let mut text: Vec<char> = Vec::new();
            push_md_inlines(&mut text, inl);
            assert(text@ =~= md_inlines(inl@));
            let mut line: Vec<char> = crate::text::copy(marker);
            line.push(' ');
            if text.len() == 0 {
                push_task_md(&mut line, item.task, true);
            } else {
                push_task_md(&mut line, item.task, false);
                let mut with: Vec<char> = Vec::new();
                with.push('\n');
                push_vec(&mut with, &pad);
                assert(with@ =~= seq!['\n'] + pad_md(marker@));
                push_replace_nl(&mut line, &text, &with);
            }
            let ghost expect = if text@.len() == 0 {
                marker@ + seq![' '] + task_md_bare(item.task)
            } else {
                marker@ + seq![' '] + task_md(item.task) + replace_nl(
                    text@,
                    seq!['\n'] + pad_md(marker@),
                )
            };
            assert(line@ =~= expect);
            assert(bs@[0] == Block::Paragraph(*inl));
            assert(first_lines_md(marker@, item.task, bs@[0]) == seq![expect]);
            push_line(out, true, &line, Ghost(o), Ghost(Seq::empty()));
            assert(Seq::<Seq<char>>::empty().push(line@) =~= seq![line@]);
        },
        _ => {
            push_line(out, true, marker, Ghost(o), Ghost(Seq::empty()));
            let ghost first = seq![marker@];
            assert(Seq::<Seq<char>>::empty().push(marker@) =~= first);
            push_block_lines(out, &pad, &bs[0], Ghost(o), Ghost(first));
        },
    }
    assert(item_lines_md(marker@, item.task, tight, bs@, 1) == first_lines_md(
        marker@,
        item.task,
        bs@[0],
    ));
    assert(out@ == o + join(item_lines_md(marker@, item.task, tight, bs@, 1), seq!['\n']));
    let mut k: usize = 1;
    while k < n
        invariant
            1 <= k <= n,
            n == bs@.len(),
            bs == &item.blocks,
            out@ == o + join(item_lines_md(marker@, item.task, tight, bs@, k as int), seq!['\n']),
            item_lines_md(marker@, item.task, tight, bs@, k as int).len() > 0,
        decreases n - k,
    {
        let ghost prev = item_lines_md(marker@, item.task, tight, bs@, k as int);
        let ghost cur = prev;
        if !tight {
            let blank: Vec<char> = Vec::new();
            push_line(out, false, &blank, Ghost(o), Ghost(prev));
            proof {
                cur = prev.push(Seq::empty());
            }
        }
        proof {
            assert(decreases_to!(item => item.blocks));
            assert(decreases_to!(item.blocks => item.blocks@));
            assert(decreases_to!(item.blocks@ => item.blocks@[k as int]));
        }
        push_block_lines(out, &pad, &bs[k], Ghost(o), Ghost(cur));
        proof {
            assert(prev + (if tight {
                Seq::empty()
            } else {
                seq![Seq::<char>::empty()]
            }) =~= cur);
            assert(item_lines_md(marker@, item.task, tight, bs@, k + 1) =~= cur + block_lines_md(
                pad@,
                md_block(bs@[k as int]),
            ));
        }
        k += 1;
    }
}

#[verifier::rlimit(40)]
fn push_items_md(out: &mut Vec<char>, list: &List)
    ensures
        final(out)@ == old(out)@ + items_md(*list, list.items@, list.items@.len() as int),
    decreases list, 0usize,
{
    let ghost o = out@;
    let mut num: u32 = list.start;
    let mut k: usize = 0;
    while k < list.items.len()
        invariant
            k <= list.items@.len(),
            num == item_number(list.start, k as int),
            out@ == o + items_md(*list, list.items@, k as int),
        decreases list.items@.len() - k,
    {
        if k > 0 {
            out.push('\n');
            if !list.tight {
                out.push('\n');
            }
        }
        let marker = marker_vec(list, num);
        proof {
            assert(decreases_to!(list => list.items));
            assert(decreases_to!(list.items => list.items@));
            assert(decreases_to!(list.items@ => list.items@[k as int]));
        }
        push_md_item(out, &marker, list.tight, &list.items[k]);
        assert(out@ =~= o + items_md(*list, list.items@, k + 1));
        proof {
            lemma_item_number_next(list.start, k as int);
        }
        num = num.wrapping_add(1);
        k += 1;
    }
}

proof fn lemma_item_number_next(start: u32, k: int)
    requires
        0 <= k,
    ensures
        item_number(start, k + 1) == vstd::wrapping::u32_specs::wrapping_add(item_number(start, k), 1),
{
    let m: int = 0x1_0000_0000;
    let x: int = start as int + k;
    assert(x % m + 1 <= m);
    assert((x + 1) % m == if x % m + 1 == m {
        0
    } else {
        x % m + 1
    }) by (nonlinear_arith)
        requires
            m == 0x1_0000_0000,
            x >= 0,
    ;
}

// Blocks

fn push_md_block(out: &mut Vec<char>, b: &Block)
    ensures
        final(out)@ == old(out)@ + md_block(*b),
    decreases b, 0usize,
{
    let ghost o = out@;
    match b {
        Block::Paragraph(inl) => push_md_inlines(out, inl),
        Block::Heading(h) => {
            push_repeat(out, '#', h.level as usize);
            out.push(' ');
            push_md_inlines(out, &h.content);
        },
        Block::ThematicBreak(tb) => push_repeat(out, tb.marker, 3),
        Block::CodeBlock(code) => push_code_md(out, code),
        Block::HtmlBlock(lines) => push_html_lines_md(out, lines),
        Block::BlockQuote(children) => {
            let mut inner: Vec<char> = Vec::new();
            push_md_blocks(&mut inner, children);
            assert(inner@ =~= md_blocks(children@));
            push_quote_md(out, &inner);
        },
        Block::List(list) => push_items_md(out, list),
        Block::Table(t) => push_table_md(out, t),
    }
    assert(out@ =~= o + md_block(*b));
}

fn push_md_blocks(out: &mut Vec<char>, bs: &Vec<Block>)
    ensures
        final(out)@ == old(out)@ + md_blocks(bs@),
    decreases bs, 1usize,
{
    let ghost o = out@;
    if bs.len() == 0 {
        assert(out@ =~= o + md_blocks(bs@));
        return;
    }
    let mut k: usize = 0;
    while k < bs.len()
        invariant
            k <= bs@.len(),
            out@ == o + md_join(bs@, k as int),
        decreases bs@.len() - k,
    {
        if k > 0 {
            out.push('\n');
            out.push('\n');
        }
        proof {
            assert(decreases_to!(bs => bs@));
            assert(decreases_to!(bs@ => bs@[k as int]));
        }
        push_md_block(out, &bs[k]);
        assert(out@ =~= o + md_join(bs@, k + 1));
        k += 1;
    }
    out.push('\n');
    assert(out@ =~= o + md_blocks(bs@));
}

// ---------------------------------------------------------------------------
// Reference definitions
// ---------------------------------------------------------------------------

/// `a` sorts before `b`: code point order, a proper prefix first.
pub open spec fn key_lt(a: Seq<char>, b: Seq<char>) -> bool
    decreases a.len(),
{
    if a.len() == 0 {
        b.len() > 0
    } else if b.len() == 0 {
        false
    } else if a[0] != b[0] {
        (a[0] as u32) < (b[0] as u32)
    } else {
        key_lt(a.drop_first(), b.drop_first())
    }
}

/// `d` placed into `s` before the first entry whose label sorts after it.
pub open spec fn insert_def(s: Seq<RefDef>, d: RefDef) -> Seq<RefDef>
    decreases s.len(),
{
    if s.len() == 0 {
        seq![d]
    } else if key_lt(d.key@, s[0].key@) {
        seq![d] + s
    } else {
        seq![s[0]] + insert_def(s.drop_first(), d)
    }
}

/// Definitions ordered by label (entries with equal labels keep their order).
pub open spec fn sorted_defs(s: Seq<RefDef>) -> Seq<RefDef>
    decreases s.len(),
{
    if s.len() == 0 {
        s
    } else {
        insert_def(sorted_defs(s.drop_last()), s.last())
    }
}

/// A destination that must be written inside `<>`.
pub open spec fn needs_angle(dest: Seq<char>) -> bool {
    exists|i: int|
        0 <= i < dest.len() && (dest[i] == ' ' || dest[i] == '\t' || dest[i] == '(' || dest[i]
            == ')')
}

/// `[label]: dest "title"`, the title only when non-empty.
pub open spec fn ref_md(d: RefDef) -> Seq<char> {
    seq!['['] + d.key@ + seq![']', ':', ' '] + (if needs_angle(d.dest@) {
        seq!['<'] + d.dest@ + seq!['>']
    } else {
        d.dest@
    }) + (if d.title is Some && d.title->0@.len() > 0 {
        seq![' ', '"'] + d.title->0@ + seq!['"']
    } else {
        Seq::empty()
    })
}

/// Each definition on a line of its own.
pub open spec fn refs_lines_md(s: Seq<RefDef>) -> Seq<char>
    decreases s.len(),
{
    if s.len() == 0 {
        Seq::empty()
    } else {
        refs_lines_md(s.drop_last()) + ref_md(s.last()) + seq!['\n']
    }
}

/// The reference section: sorted definitions, set off from any body by a
/// blank line.
pub open spec fn refs_md(defs: Seq<RefDef>, has_blocks: bool) -> Seq<char> {
    if defs.len() == 0 {
        Seq::empty()
    } else {
        (if has_blocks {
            seq!['\n']
        } else {
            Seq::empty()
        }) + refs_lines_md(sorted_defs(defs))
    }
}

/// Frontmatter re-emitted verbatim, then the line ending it used.
pub open spec fn frontmatter_md(fm: Option<Frontmatter>) -> Seq<char> {
    match fm {
        Some(f) => f.original@ + spec_newline(f.original@),
        None => Seq::empty(),
    }
}

/// Markdown of a whole document.
pub open spec fn md_document(doc: Document) -> Seq<char> {
    frontmatter_md(doc.frontmatter) + md_blocks(doc.blocks@) + refs_md(
        doc.references.defs@,
        doc.blocks@.len() > 0,
    )
}

proof fn lemma_key_lt_skip(a: Seq<char>, b: Seq<char>, i: int)
    requires
        0 <= i <= a.len(),
        i <= b.len(),
        a.take(i) == b.take(i),
    ensures
        key_lt(a, b) == key_lt(a.skip(i), b.skip(i)),
    decreases i,
{
    if i > 0 {
        assert(a[0] == a.take(i)[0]);
        assert(b[0] == b.take(i)[0]);
        assert(a.drop_first().take(i - 1) =~= a.take(i).drop_first());
        assert(b.drop_first().take(i - 1) =~= b.take(i).drop_first());
        lemma_key_lt_skip(a.drop_first(), b.drop_first(), i - 1);
        assert(a.drop_first().skip(i - 1) =~= a.skip(i));
        assert(b.drop_first().skip(i - 1) =~= b.skip(i));
    } else {
        assert(a.skip(0) =~= a);
        assert(b.skip(0) =~= b);
    }
}

fn key_less(a: &Vec<char>, b: &Vec<char>) -> (r: bool)
    ensures
        r == key_lt(a@, b@),
{
    let mut i: usize = 0;
    while i < a.len() && i < b.len() && a[i] == b[i]
        invariant
            i <= a@.len(),
            i <= b@.len(),
            a@.take(i as int) == b@.take(i as int),
        decreases a@.len() - i,
    {
        assert(a@.take(i + 1) =~= a@.take(i as int).push(a@[i as int]));
        assert(b@.take(i + 1) =~= b@.take(i as int).push(b@[i as int]));
        i += 1;
    }
    proof {
        lemma_key_lt_skip(a@, b@, i as int);
    }
    let ghost sa = a@.skip(i as int);
    let ghost sb = b@.skip(i as int);
    if i == a.len() {
        assert(sa.len() == 0);
        i < b.len()
    } else if i == b.len() {
        false
    } else {
        assert(sa[0] == a@[i as int]);
        assert(sb[0] == b@[i as int]);
        (a[i] as u32) < (b[i] as u32)
    }
}

proof fn lemma_insert_def_at(s: Seq<RefDef>, d: RefDef, p: int)
    requires
        0 <= p <= s.len(),
        forall|j: int| 0 <= j < p ==> !key_lt(d.key@, #[trigger] s[j].key@),
        p == s.len() || key_lt(d.key@, s[p].key@),
    ensures
        insert_def(s, d) == s.take(p) + seq![d] + s.skip(p),
    decreases p,
{
    if p == 0 {
        assert(s.take(0) + seq![d] + s.skip(0) =~= seq![d] + s);
        if s.len() == 0 {
            assert(seq![d] + s =~= seq![d]);
        }
    } else {
        let t = s.drop_first();
        assert forall|j: int| 0 <= j < p - 1 implies !key_lt(d.key@, #[trigger] t[j].key@) by {
            assert(t[j] == s[j + 1]);
        }
        if p < s.len() {
            assert(t[p - 1] == s[p]);
        }
        lemma_insert_def_at(t, d, p - 1);
        assert(seq![s[0]] + (t.take(p - 1) + seq![d] + t.skip(p - 1)) =~= s.take(p) + seq![d]
            + s.skip(p));
    }
}

/// Positions of `defs` in label order.
fn sorted_order(defs: &Vec<RefDef>) -> (order: Vec<usize>)
    ensures
        forall|j: int| 0 <= j < order@.len() ==> order@[j] < defs@.len(),
        Seq::new(order@.len(), |j: int| defs@[order@[j] as int]) == sorted_defs(defs@),
{
    let mut order: Vec<usize> = Vec::new();
    let mut k: usize = 0;
    while k < defs.len()
        invariant
            k <= defs@.len(),
            forall|j: int| 0 <= j < order@.len() ==> order@[j] < k,
            Seq::new(order@.len(), |j: int| defs@[order@[j] as int]) == sorted_defs(
                defs@.take(k as int),
            ),
        decreases defs@.len() - k,
    {
        let ghost s = Seq::new(order@.len(), |j: int| defs@[order@[j] as int]);
        let mut p: usize = 0;
        while p < order.len() && !key_less(&defs[k].key, &defs[order[p]].key)
            invariant
                p <= order@.len(),
                forall|j: int| 0 <= j < order@.len() ==> order@[j] < k,
                k < defs@.len(),
                s == Seq::new(order@.len(), |j: int| defs@[order@[j] as int]),
                forall|j: int| 0 <= j < p ==> !key_lt(defs@[k as int].key@, #[trigger] s[j].key@),
            decreases order@.len() - p,
        {
            p += 1;
        }
        proof {
            lemma_insert_def_at(s, defs@[k as int], p as int);
            assert(defs@.take(k + 1).drop_last() =~= defs@.take(k as int));
            assert(defs@.take(k + 1).last() == defs@[k as int]);
        }
        order.insert(p, k);
        assert(Seq::new(order@.len(), |j: int| defs@[order@[j] as int]) =~= s.take(p as int) + seq![
            defs@[k as int],
        ] + s.skip(p as int));
        k += 1;
    }
    assert(defs@.take(defs@.len() as int) =~= defs@);
    order
}

fn push_ref_md(out: &mut Vec<char>, d: &RefDef)
    ensures
        final(out)@ == old(out)@ + ref_md(*d),
{
    let ghost o = out@;
    out.push('[');
    push_vec(out, &d.key);
    out.push(']');
    out.push(':');
    out.push(' ');
    let mut angle = false;
    let mut i: usize = 0;
    while i < d.dest.len()
        invariant
            i <= d.dest@.len(),
            angle == exists|j: int|
                0 <= j < i && (d.dest@[j] == ' ' || d.dest@[j] == '\t' || d.dest@[j] == '('
                    || d.dest@[j] == ')'),
        decreases d.dest@.len() - i,
    {
        let c = d.dest[i];
        if c == ' ' || c == '\t' || c == '(' || c == ')' {
            angle = true;
        }
        i += 1;
    }
    if angle {
        out.push('<');
        push_vec(out, &d.dest);
        out.push('>');
    } else {
        push_vec(out, &d.dest);
    }
    match &d.title {
        Some(t) => {
            if t.len() > 0 {
                out.push(' ');
                out.push('"');
                push_vec(out, t);
                out.push('"');
            }
        },
        None => {},
    }
    assert(out@ =~= o + ref_md(*d));
}

fn push_refs_md(out: &mut Vec<char>, defs: &Vec<RefDef>)
    ensures
        final(out)@ == old(out)@ + refs_lines_md(sorted_defs(defs@)),
{
    let ghost o = out@;
    let order = sorted_order(defs);
    let ghost s = Seq::new(order@.len(), |j: int| defs@[order@[j] as int]);
    let mut q: usize = 0;
    while q < order.len()
        invariant
            q <= order@.len(),
            forall|j: int| 0 <= j < order@.len() ==> order@[j] < defs@.len(),
            s == Seq::new(order@.len(), |j: int| defs@[order@[j] as int]),
            out@ == o + refs_lines_md(s.take(q as int)),
        decreases order@.len() - q,
    {
        push_ref_md(out, &defs[order[q]]);
        out.push('\n');
        proof {
            assert(s.take(q + 1).drop_last() =~= s.take(q as int));
        }
        assert(out@ =~= o + refs_lines_md(s.take(q + 1)));
        q += 1;
    }
    assert(s.take(order@.len() as int) =~= s);
}

/// Render a document back to Markdown.
///
/// Normalizing rather than verbatim (see the module notes). Frontmatter
/// re-emits verbatim ahead of the body, exactly as
/// `frontmatter::prepend_frontmatter` would attach it; the collected
/// reference definitions follow the body, sorted by label.
pub fn render_markdown(doc: &Document) -> (r: String)
    ensures
        r@ == md_document(*doc),
{
    let mut body: Vec<char> = Vec::new();
    push_md_blocks(&mut body, &doc.blocks);
    let ghost b0 = body@;
    if doc.references.defs.len() > 0 {
        if doc.blocks.len() > 0 {
            body.push('\n');
        }
        push_refs_md(&mut body, &doc.references.defs);
    }
    assert(body@ =~= md_blocks(doc.blocks@) + refs_md(doc.references.defs@, doc.blocks@.len() > 0));
    let text = string_of(&body);
    match &doc.frontmatter {
        Some(fm) => crate::frontmatter::prepend_frontmatter(fm, text.as_str()),
        None => {
            assert(text@ =~= md_document(*doc));
            text
        },
    }
}

} // verus!
