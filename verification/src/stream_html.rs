//! HTML rendering from an [`Event`] stream.
//!
//! The renderer walks a flat event slice with a cursor. Block openers
//! recurse until their closer; list items and definition descriptions are
//! split into their top-level child ranges first, so tight items can unwrap
//! paragraphs exactly as the AST renderer does. Footnote definitions never
//! render in flow: they are collected during the walk and emitted as the
//! `<section class="footnotes" data-footnotes>` footer. Slices that no
//! document produces (stray closers, inline events at block level) render
//! harmlessly: the cursor always moves forward and nothing panics.

use vstd::prelude::*;
use crate::ast::Alignment;
use crate::highlight::{hl_stated, language_from_info, SyntaxHighlighter};
use crate::html_escape::spec_escape_html;
use crate::inline_parser::{push_clean_href, push_escaped_string, push_string, string_nonempty};
use crate::ast::{Block, Inline, ListItem, Table, TableCell};
use crate::stream::{
    block_events, blocks_events, event_views, inline_events, inlines_events, opt_str, Event,
    EventV, Tag, TagEnd, TagV,
};
use crate::text::{chars_of, eq_vec, is_whitespace, push_decimal, push_decimal_usize, push_str, push_vec, spec_decimal, string_of};

verus! {

broadcast use vstd::string::group_string_axioms;

// ---------------------------------------------------------------------------
// Renderer state
// ---------------------------------------------------------------------------

/// An open table: its alignments and the per-row column cursor.
struct TableFrame {
    alignments: Vec<Alignment>,
    col: usize,
    in_head: bool,
    had_rows: bool,
}

/// A footnote definition hoisted out of flow: label and number, plus the
/// range of its inner events (`lo..hi`, `hi` being its closer).
struct HoistedDef {
    label: String,
    number: usize,
    lo: usize,
    hi: usize,
}

/// State threaded through the walk.
struct RenderCtx {
    /// Tightness of each open list, innermost last.
    lists: Vec<bool>,
    /// Open tables, innermost last.
    tables: Vec<TableFrame>,
    /// Tightness of each open definition list, innermost last.
    dl_tight: Vec<bool>,
    /// References rendered so far, per label.
    seen: Vec<(String, usize)>,
    /// References in the whole slice, per label.
    totals: Vec<(String, usize)>,
    /// Footnote definitions met so far.
    defs: Vec<HoistedDef>,
}

/// What every walk function leaves as it found it: the open lists, the
/// open definition lists and the number of open tables.
spec fn ctx_kept(a: RenderCtx, b: RenderCtx) -> bool {
    &&& b.lists@ == a.lists@
    &&& b.dl_tight@ == a.dl_tight@
    &&& b.tables@.len() == a.tables@.len()
}

/// Inline rendering touches nothing but the reference counters and the
/// hoisted definitions.
spec fn inline_kept(a: RenderCtx, b: RenderCtx) -> bool {
    &&& b.defs@ == a.defs@
    &&& b.lists@ == a.lists@
    &&& b.dl_tight@ == a.dl_tight@
    &&& b.tables@ == a.tables@
}

// ---------------------------------------------------------------------------
// Small helpers
// ---------------------------------------------------------------------------

fn str_eq(a: &String, b: &String) -> (r: bool)
    ensures
        r == (a@ == b@),
{
    let x = chars_of(a.as_str());
    let y = chars_of(b.as_str());
    eq_vec(&x, &y)
}

fn ends_with_nl(out: &Vec<char>) -> (r: bool)
    ensures
        r == (out@.len() > 0 && out@.last() == '\n'),
{
    out.len() > 0 && out[out.len() - 1] == '\n'
}

fn is_rule(events: &[Event], i: usize) -> (r: bool)
    ensures
        r == (i < events@.len() && events@[i as int] is Rule),
{
    if i < events.len() {
        match &events[i] {
            Event::Rule => true,
            _ => false,
        }
    } else {
        false
    }
}

fn is_start(events: &[Event], i: usize) -> (r: bool)
    ensures
        r == (i < events@.len() && events@[i as int] is Start),
{
    if i < events.len() {
        match &events[i] {
            Event::Start(_) => true,
            _ => false,
        }
    } else {
        false
    }
}

fn is_paragraph_start(events: &[Event], i: usize) -> (r: bool)
    ensures
        r == (i < events@.len() && events@[i as int] matches Event::Start(Tag::Paragraph)),
{
    if i < events.len() {
        match &events[i] {
            Event::Start(Tag::Paragraph) => true,
            _ => false,
        }
    } else {
        false
    }
}

/// Index of the first entry from `i` on whose label is `label`.
pub open spec fn pair_find(v: Seq<(String, usize)>, label: Seq<char>, i: int) -> Option<int>
    decreases v.len() - i,
{
    if i < 0 || i >= v.len() {
        None
    } else if v[i].0@ == label {
        Some(i)
    } else {
        pair_find(v, label, i + 1)
    }
}

proof fn lemma_pair_find(v: Seq<(String, usize)>, label: Seq<char>, i: int)
    requires
        0 <= i,
    ensures
        pair_find(v, label, i) matches Some(k) ==> i <= k < v.len() && v[k].0@ == label,
    decreases v.len() - i,
{
    if i < v.len() && v[i].0@ != label {
        lemma_pair_find(v, label, i + 1);
    }
}

/// The count stored for `label`, if any.
fn count_of(v: &Vec<(String, usize)>, label: &String) -> (r: Option<usize>)
    ensures
        r == (match pair_find(v@, label@, 0) {
            Some(k) => Some(v@[k].1),
            None => None,
        }),
        r matches Some(n) ==> exists|i: int| 0 <= i < v@.len() && v@[i].1 == n,
{
    proof {
        lemma_pair_find(v@, label@, 0);
    }
    let mut i: usize = 0;
    while i < v.len()
        invariant
            i <= v@.len(),
            pair_find(v@, label@, i as int) == pair_find(v@, label@, 0),
        decreases v@.len() - i,
    {
        if str_eq(&v[i].0, label) {
            return Some(v[i].1);
        }
        i += 1;
    }
    None
}

/// Count one more occurrence of `label` (saturating); returns the new
/// count.
fn bump(v: &mut Vec<(String, usize)>, label: &String) -> (n: usize)
    ensures
        n >= 1,
        forall|i: int| 0 <= i < final(v)@.len() ==> (#[trigger] final(v)@[i]).1 >= 1 || (i
            < old(v)@.len() && final(v)@[i].1 == old(v)@[i].1),
        match pair_find(old(v)@, label@, 0) {
            Some(k) => {
                &&& final(v)@.len() == old(v)@.len()
                &&& n == (if old(v)@[k].1 == usize::MAX {
                    usize::MAX
                } else {
                    (old(v)@[k].1 + 1) as usize
                })
                &&& final(v)@[k].0@ == label@
                &&& final(v)@[k].1 == n
                &&& forall|j: int| 0 <= j < old(v)@.len() && j != k ==> final(v)@[j] == old(v)@[j]
            },
            None => {
                &&& n == 1
                &&& final(v)@ == old(v)@.push((*label, 1usize))
            },
        },
{
    proof {
        lemma_pair_find(old(v)@, label@, 0);
    }
    let mut i: usize = 0;
    while i < v.len()
        invariant
            i <= v@.len(),
            v@ == old(v)@,
            pair_find(v@, label@, i as int) == pair_find(v@, label@, 0),
        decreases v@.len() - i,
    {
        if str_eq(&v[i].0, label) {
            let n = v[i].1.saturating_add(1);
            let key = v[i].0.clone();
            v.set(i, (key, n));
            return n;
        }
        i += 1;
    }
    v.push((label.clone(), 1));
    1
}

/// Index of the closer matching the opener at `start` (nesting-aware);
/// the slice length when it is never closed.
fn find_end(events: &[Event], start: usize, Ghost(x): Ghost<Seq<EventV>>) -> (r: usize)
    requires
        start < events@.len(),
        events@[start as int] is Start,
    ensures
        start < r <= events@.len(),
        bal(x) && at(event_views(events@), start as int, x) ==> r == start + x.len() - 1,
{
    let ghost ev = event_views(events@);
    let ghost hb = bal(x) && at(ev, start as int, x);
    let mut depth: usize = 0;
    let mut i: usize = start;
    proof {
        assert(ev.subrange(start as int, start as int) =~= Seq::<EventV>::empty());
    }
    while i < events.len()
        invariant
            start <= i <= events@.len(),
            events@[start as int] is Start,
            depth <= i - start,
            i > start ==> depth >= 1,
            ev == event_views(events@),
            depth == dsum(ev.subrange(start as int, i as int)),
            hb == (bal(x) && at(ev, start as int, x)),
            hb ==> i < start + x.len(),
        decreases events@.len() - i,
    {
        proof {
            assert(ev.subrange(start as int, i + 1).drop_last() =~= ev.subrange(start as int, i as int));
            assert(ev.subrange(start as int, i + 1).last() == ev[i as int]);
            assert(ev[i as int] == events@[i as int]@);
            if hb {
                assert(ev.subrange(start as int, i + 1) =~= x.take(i + 1 - start)) by {
                    assert forall|k: int| 0 <= k < i + 1 - start implies #[trigger] ev.subrange(start as int, i + 1)[k] == x.take(i + 1 - start)[k] by {
                        assert(ev.subrange(start as int, start + x.len())[k] == x[k]);
                    }
                }
                assert(x.take(x.len() as int) =~= x);
            }
        }
        match &events[i] {
            Event::Start(_) => {
                depth += 1;
            },
            Event::End(_) => {
                depth -= 1;
                if depth == 0 {
                    return i;
                }
            },
            _ => {},
        }
        i += 1;
    }
    events.len()
}

pub(crate) proof fn lemma_blocks_len(bs: Seq<Block>)
    ensures
        blocks_events(bs).len() >= bs.len(),
    decreases bs.len(),
{
    if bs.len() > 0 {
        lemma_blocks_len(bs.drop_last());
        let b = bs.last();
        assert(block_events(b).len() >= 1);
    }
}

/// The top-level child ranges in `lo..hi`: each pair is an opener and the
/// index of its closer.
fn child_ranges(events: &[Event], lo: usize, hi: usize, Ghost(bs): Ghost<Seq<Block>>) -> (r: Vec<(usize, usize)>)
    requires
        events@.len() < usize::MAX,
    ensures
        forall|k: int|
            0 <= k < r@.len() ==> {
                &&& lo <= (#[trigger] r@[k]).0 < hi
                &&& r@[k].0 <= r@[k].1 <= events@.len()
                &&& (events@[r@[k].0 as int] is Start && r@[k].0 < r@[k].1) || (events@[r@[k].0 as int] is Rule && r@[k].0 == r@[k].1)
            },
        at(event_views(events@), lo as int, blocks_events(bs)) && hi == lo
            + blocks_events(bs).len() ==> r@.len() == bs.len() && forall|k: int|
            0 <= k < bs.len() ==> (#[trigger] r@[k]).0 == lo + blocks_events(bs.take(k)).len()
                && r@[k].1 == r@[k].0 + block_events(bs[k]).len() - 1,
{
    let ghost ev = event_views(events@);
    let ghost hc = at(ev, lo as int, blocks_events(bs)) && hi == lo + blocks_events(bs).len();
    let mut blocks: Vec<(usize, usize)> = Vec::new();
    if lo >= hi {
        proof {
            if hc {
                lemma_blocks_len(bs);
            }
        }
        return blocks;
    }
    let ghost mut j: int = 0;
    proof {
        if hc {
            assert(bs.take(0) =~= Seq::<Block>::empty());
        }
    }
    let mut m: usize = lo;
    // Past the slice's end no opener can follow.
    while m < hi && m < events.len()
        invariant
            events@.len() < usize::MAX,
            lo <= m,
            ev == event_views(events@),
            hc == (at(ev, lo as int, blocks_events(bs)) && hi == lo + blocks_events(bs).len()),
            forall|k: int|
                0 <= k < blocks@.len() ==> {
                    &&& lo <= (#[trigger] blocks@[k]).0 < hi
                    &&& blocks@[k].0 <= blocks@[k].1 <= events@.len()
                    &&& (events@[blocks@[k].0 as int] is Start && blocks@[k].0 < blocks@[k].1) || (events@[blocks@[k].0 as int] is Rule && blocks@[k].0 == blocks@[k].1)
                },
            hc ==> 0 <= j <= bs.len() && m == lo + blocks_events(bs.take(j)).len() && blocks@.len() == j
                && forall|k: int|
                0 <= k < j ==> (#[trigger] blocks@[k]).0 == lo + blocks_events(bs.take(k)).len()
                    && blocks@[k].1 == blocks@[k].0 + block_events(bs[k]).len() - 1,
        decreases events@.len() + 1 - m,
    {
        proof {
            if hc {
                if j < bs.len() {
                    lemma_blocks_at(bs, j);
                    lemma_at_split(ev, lo as int, blocks_events(bs.take(j)), block_events(bs[j]) + blocks_events(bs.skip(j + 1)));
                    lemma_at_split(ev, m as int, block_events(bs[j]), blocks_events(bs.skip(j + 1)));
                    lemma_block_nn(bs[j]);
                    assert(ev[m as int] == events@[m as int]@);
                    assert(ev[m as int] == block_events(bs[j])[0]);
                } else {
                    assert(bs.take(j) =~= bs);
                }
            }
        }
        if is_start(events, m) {
            let ghost x = if 0 <= j < bs.len() { block_events(bs[j]) } else { Seq::empty() };
            let f = find_end(events, m, Ghost(x));
            blocks.push((m, f));
            m = f + 1;
            proof {
                if hc {
                    j = j + 1;
                }
            }
        } else if is_rule(events, m) {
            // A thematic break is a block of one event.
            blocks.push((m, m));
            m += 1;
            proof {
                if hc {
                    j = j + 1;
                }
            }
        } else {
            m += 1;
        }
    }
    proof {
        if hc {
            if j < bs.len() {
                lemma_blocks_at(bs, j);
                lemma_at_split(ev, lo as int, blocks_events(bs.take(j)), block_events(bs[j]) + blocks_events(bs.skip(j + 1)));
                lemma_block_nn(bs[j]);
            }
            assert(bs.take(j) =~= bs);
        }
    }
    blocks
}

/// The checkbox of a task item, with a trailing space.
fn checkbox(task: Option<bool>) -> (r: Vec<char>)
    ensures
        r@ == crate::ast::task_checkbox(task),
{
    let mut v: Vec<char> = Vec::new();
    match task {
        Some(true) => push_str(&mut v, "<input type=\"checkbox\" checked=\"\" disabled=\"\" /> "),
        Some(false) => push_str(&mut v, "<input type=\"checkbox\" disabled=\"\" /> "),
        None => {},
    }
    v
}

/// `s` without its trailing whitespace.
fn trim_end_ws(s: &Vec<char>) -> (r: Vec<char>)
    ensures
        r@.len() <= s@.len(),
        r@ == s@.take(r@.len() as int),
        forall|j: int| r@.len() <= j < s@.len() ==> crate::text::spec_is_whitespace(#[trigger] s@[j]),
        r@.len() > 0 ==> !crate::text::spec_is_whitespace(s@[r@.len() - 1]),
{
    let mut n: usize = s.len();
    while n > 0 && is_whitespace(s[n - 1])
        invariant
            n <= s@.len(),
            forall|j: int| n <= j < s@.len() ==> crate::text::spec_is_whitespace(#[trigger] s@[j]),
        decreases n,
    {
        n -= 1;
    }
    crate::text::slice(s, 0, n)
}

/// `s` without its leading whitespace.
fn trim_start_ws(s: &Vec<char>) -> (r: Vec<char>)
    ensures
        r@ == crate::text::spec_trim_start(s@, 0),
        r@.len() <= s@.len(),
        r@ == s@.skip(s@.len() - r@.len()),
{
    let n = crate::text::skip_class(s, 0, 0);
    proof {
        crate::text::lemma_lead_end_bounds(s@, 0, 0);
    }
    crate::text::slice(s, n, s.len())
}

/// `<a href="..."[ title="..."]>`.
fn push_link_open(out: &mut Vec<char>, url: &String, title: &Option<String>)
    ensures
        final(out)@ == old(out)@ + link_open(url@, opt_str(*title)),
{
    let ghost o = out@;
    let titled = match title {
        Some(t) => string_nonempty(t),
        None => false,
    };
    push_str(out, "<a href=\"");
    push_clean_href(out, url);
    if titled {
        match title {
            Some(t) => {
                push_str(out, "\" title=\"");
                push_escaped_string(out, t);
            },
            None => {},
        }
    }
    push_str(out, "\">");
    assert(out@ =~= o + link_open(url@, opt_str(*title)));
}

/// `<img src="..." alt="..."[ title="..."] />`.
fn push_image(out: &mut Vec<char>, alt: &String, url: &String, title: &Option<String>)
    ensures
        final(out)@ == old(out)@ + image_html(alt@, url@, opt_str(*title)),
{
    let ghost o = out@;
    let titled = match title {
        Some(t) => string_nonempty(t),
        None => false,
    };
    push_str(out, "<img src=\"");
    push_clean_href(out, url);
    push_str(out, "\" alt=\"");
    push_escaped_string(out, alt);
    if titled {
        match title {
            Some(t) => {
                push_str(out, "\" title=\"");
                push_escaped_string(out, t);
            },
            None => {},
        }
    }
    push_str(out, "\" />");
    assert(out@ =~= o + image_html(alt@, url@, opt_str(*title)));
}

/// The opening anchor of a link.
pub open spec fn link_open(url: Seq<char>, title: Option<Seq<char>>) -> Seq<char> {
    let href = spec_escape_html(crate::html_escape::spec_clean_url(url));
    if title is Some && title->0.len() > 0 {
        "<a href=\""@ + href + "\" title=\""@ + spec_escape_html(title->0) + "\">"@
    } else {
        "<a href=\""@ + href + "\">"@
    }
}

/// An image element.
pub open spec fn image_html(alt: Seq<char>, url: Seq<char>, title: Option<Seq<char>>) -> Seq<char> {
    let src = spec_escape_html(crate::html_escape::spec_clean_url(url));
    if title is Some && title->0.len() > 0 {
        "<img src=\""@ + src + "\" alt=\""@ + spec_escape_html(alt) + "\" title=\""@
            + spec_escape_html(title->0) + "\" />"@
    } else {
        "<img src=\""@ + src + "\" alt=\""@ + spec_escape_html(alt) + "\" />"@
    }
}

/// The superscript anchor of the `occurrence`-th reference to footnote
/// `number`: the first takes id `fnref-N`, later ones `fnref-N-K`.
pub open spec fn footnote_ref_html(number: nat, occurrence: nat) -> Seq<char> {
    "<sup class=\"footnote-ref\"><a href=\"#fn-"@ + spec_decimal(number) + "\" id=\"fnref-"@
        + spec_decimal(number) + (if occurrence > 1 {
        "-"@ + spec_decimal(occurrence)
    } else {
        Seq::empty()
    }) + "\" data-footnote-ref>"@ + spec_decimal(number) + "</a></sup>"@
}

fn push_footnote_ref(out: &mut Vec<char>, number: usize, occurrence: usize)
    ensures
        final(out)@ == old(out)@ + footnote_ref_html(number as nat, occurrence as nat),
{
    let ghost o = out@;
    push_str(out, "<sup class=\"footnote-ref\"><a href=\"#fn-");
    push_decimal_usize(out, number);
    push_str(out, "\" id=\"fnref-");
    push_decimal_usize(out, number);
    if occurrence > 1 {
        push_str(out, "-");
        push_decimal_usize(out, occurrence);
    }
    push_str(out, "\" data-footnote-ref>");
    push_decimal_usize(out, number);
    push_str(out, "</a></sup>");
    assert(out@ =~= o + footnote_ref_html(number as nat, occurrence as nat));
}

/// ` align="..."` of a column alignment.
fn push_align(out: &mut Vec<char>, a: Alignment)
    ensures
        final(out)@ == old(out)@ + crate::ast::align_attr(a),
{
    match a {
        Alignment::Unset => {},
        Alignment::Left => push_str(out, " align=\"left\""),
        Alignment::Center => push_str(out, " align=\"center\""),
        Alignment::Right => push_str(out, " align=\"right\""),
    }
}

// ---------------------------------------------------------------------------
// What the walk renders on the events of a document
// ---------------------------------------------------------------------------

/// `x` stands in `ev` from index `p` on.
pub open spec fn at(ev: Seq<EventV>, p: int, x: Seq<EventV>) -> bool {
    0 <= p && p + x.len() <= ev.len() && ev.subrange(p, p + x.len()) == x
}

/// HTML of a leaf event (footnote references aside, which depend on the
/// references met before).
pub open spec fn leaf_html(e: EventV) -> Seq<char> {
    match e {
        EventV::Text(s) => spec_escape_html(s),
        EventV::Code(s) => "<code>"@ + spec_escape_html(s) + "</code>"@,
        EventV::MathInline(s) => "<span class=\"math-inline\">"@ + spec_escape_html(s)
            + "</span>"@,
        EventV::MathDisplay(s) => "<div class=\"math-display\">"@ + spec_escape_html(s)
            + "</div>"@,
        EventV::InlineHtml(s) => s,
        EventV::Html(s) => s + "\n"@,
        EventV::SoftBreak => "\n"@,
        EventV::HardBreak => "<br />\n"@,
        EventV::Rule => "<hr />\n"@,
        _ => Seq::empty(),
    }
}

/// Inlines whose events open with a tag.
pub open spec fn container(i: Inline) -> bool {
    match i {
        Inline::Emphasis { .. } | Inline::Strong { .. } | Inline::Strikethrough(_) | Inline::Link(
            _,
        ) | Inline::Image(_) | Inline::Autolink(_) => true,
        _ => false,
    }
}

pub(crate) proof fn lemma_at_split(ev: Seq<EventV>, p: int, a: Seq<EventV>, b: Seq<EventV>)
    requires
        at(ev, p, a + b),
    ensures
        at(ev, p, a),
        at(ev, p + a.len(), b),
        forall|k: int| 0 <= k < a.len() ==> ev[p + k] == a[k],
        forall|k: int| 0 <= k < b.len() ==> ev[p + a.len() + k] == b[k],
        b.len() > 0 ==> ev[p + a.len()] == b[0],
        a.len() > 0 ==> ev[p] == a[0],
{
    assert(ev.subrange(p, p + a.len()) =~= a) by {
        assert forall|k: int| 0 <= k < a.len() implies ev.subrange(p, p + a.len())[k] == a[k] by {
            assert(ev.subrange(p, p + (a + b).len())[k] == (a + b)[k]);
        }
    }
    assert(ev.subrange(p + a.len(), p + a.len() + b.len()) =~= b) by {
        assert forall|k: int| 0 <= k < b.len() implies ev.subrange(
            p + a.len(),
            p + a.len() + b.len(),
        )[k] == b[k] by {
            assert(ev.subrange(p, p + (a + b).len())[a.len() + k] == (a + b)[a.len() + k]);
        }
    }
    assert forall|k: int| 0 <= k < a.len() implies ev[p + k] == a[k] by {
        assert(ev.subrange(p, p + a.len())[k] == a[k]);
    }
    assert forall|k: int| 0 <= k < b.len() implies ev[p + a.len() + k] == b[k] by {
        assert(ev.subrange(p + a.len(), p + a.len() + b.len())[k] == b[k]);
    }
    if b.len() > 0 {
        assert(ev.subrange(p + a.len(), p + a.len() + b.len())[0] == b[0]);
    }
    if a.len() > 0 {
        assert(ev.subrange(p, p + a.len())[0] == a[0]);
    }
}

pub(crate) proof fn lemma_inlines_append(a: Seq<Inline>, b: Seq<Inline>)
    ensures
        inlines_events(a + b) == inlines_events(a) + inlines_events(b),
    decreases b.len(),
{
    if b.len() == 0 {
        assert(a + b =~= a);
        assert(inlines_events(a) + inlines_events(b) =~= inlines_events(a));
    } else {
        lemma_inlines_append(a, b.drop_last());
        assert((a + b).drop_last() =~= a + b.drop_last());
        assert((a + b).last() == b.last());
        assert(inlines_events(a + b) =~= inlines_events(a) + inlines_events(b));
    }
}

/// The events of inline `k` of `s` follow those of the inlines before it.
proof fn lemma_inlines_at(s: Seq<Inline>, k: int)
    requires
        0 <= k < s.len(),
    ensures
        inlines_events(s) == inlines_events(s.take(k)) + inline_events(s[k]) + inlines_events(
            s.skip(k + 1),
        ),
        inlines_events(s.take(k + 1)) == inlines_events(s.take(k)) + inline_events(s[k]),
        crate::ast::list_inline_html(s.take(k + 1)) == crate::ast::list_inline_html(s.take(k))
            + crate::ast::inline_html(s[k]),
{
    assert(s.take(k + 1).drop_last() =~= s.take(k));
    assert(s.take(k + 1).last() == s[k]);
    assert(s =~= s.take(k + 1) + s.skip(k + 1));
    lemma_inlines_append(s.take(k + 1), s.skip(k + 1));
}

/// Every inline has events; its first is an opener exactly for
/// containers and never a closer; a leaf has one event, which renders as
/// the inline does.
pub(crate) proof fn lemma_inline_shape(i: Inline)
    ensures
        inline_events(i).len() >= 1,
        inline_events(i)[0] is Start <==> container(i),
        !(inline_events(i)[0] is End),
        !container(i) ==> inline_events(i).len() == 1 && !(inline_events(
            i,
        )[0] is FootnoteReference) && leaf_html(inline_events(i)[0]) == crate::ast::inline_html(i),
{
    reveal_with_fuel(inlines_events, 1);
}

pub(crate) proof fn lemma_inlines_len(s: Seq<Inline>)
    ensures
        inlines_events(s).len() >= s.len(),
    decreases s.len(),
{
    if s.len() > 0 {
        lemma_inlines_len(s.drop_last());
        lemma_inline_shape(s.last());
    }
}

// ---------------------------------------------------------------------------
// Documents the walk renders as the AST renderer does
// ---------------------------------------------------------------------------

/// A block the walk renders as the AST renderer does: indented code
/// carries no language (the events do not tell it from fenced code).
pub open spec fn ok_block(b: Block) -> bool
    decreases b, 1nat,
{
    match b {
        Block::Paragraph(_) => true,
        Block::CodeBlock(code) => code.kind is Indented ==> crate::highlight::spec_language(
            code.info@,
        ).len() == 0,
        Block::BlockQuote(children) => ok_blocks(children@),
        Block::List(list) => ok_items(list.items@, list.tight),
        _ => true,
    }
}

pub open spec fn ok_blocks(bs: Seq<Block>) -> bool
    decreases bs, 0nat,
{
    if bs.len() == 0 {
        true
    } else {
        ok_blocks(bs.drop_last()) && ok_block(bs.last())
    }
}

pub open spec fn ok_items(items: Seq<ListItem>, tight: bool) -> bool
    decreases items, 0nat,
{
    if items.len() == 0 {
        true
    } else {
        ok_items(items.drop_last(), tight) && ok_item(items.last(), tight)
    }
}

/// An item's children, as the walk renders them: in a tight item every
/// non-paragraph child goes through the block path; in a loose one every
/// child but the first paragraph does.
pub open spec fn ok_item(item: ListItem, tight: bool) -> bool
    decreases item, 0nat,
{
    &&& if tight {
        ok_tight_children(item.blocks@)
    } else {
        crate::ast::empty_item(item) || ok_loose_from(item.blocks@, 0, false)
    }
}

pub open spec fn ok_tight_children(bs: Seq<Block>) -> bool
    decreases bs, 0nat,
{
    if bs.len() == 0 {
        true
    } else {
        ok_tight_children(bs.drop_last()) && (bs.last() is Paragraph || ok_block(bs.last()))
    }
}

pub open spec fn ok_loose_from(bs: Seq<Block>, i: int, rendered_first: bool) -> bool
    decreases bs, bs.len() - i,
{
    if i < 0 || i >= bs.len() {
        true
    } else if bs[i] is Paragraph && !rendered_first {
        ok_loose_from(bs, i + 1, true)
    } else {
        ok_block(bs[i]) && ok_loose_from(bs, i + 1, rendered_first)
    }
}

// ---------------------------------------------------------------------------
// Walk units and regions
// ---------------------------------------------------------------------------

/// What one call at an opener renders.
ghost enum Unit {
    Block(Block),
    Item(ListItem),
    Head(Seq<TableCell>),
    Row(Seq<TableCell>),
    Cell(TableCell),
}

/// What one walk until a closer renders.
ghost enum Region {
    Blocks(Seq<Block>),
    Items(Seq<ListItem>),
    Table(Seq<TableCell>, Seq<Vec<TableCell>>),
    Cells(Seq<TableCell>),
}

pub(crate) open spec fn cell_events(c: TableCell) -> Seq<EventV> {
    seq![EventV::Start(TagV::TableCell)] + inlines_events(c.content@) + seq![
        EventV::End(TagEnd::TableCell),
    ]
}

pub(crate) open spec fn head_events(h: Seq<TableCell>) -> Seq<EventV> {
    seq![EventV::Start(TagV::TableHead)] + crate::stream::cells_events(h) + seq![
        EventV::End(TagEnd::TableHead),
    ]
}

pub(crate) open spec fn row_events(r: Seq<TableCell>) -> Seq<EventV> {
    seq![EventV::Start(TagV::TableRow)] + crate::stream::cells_events(r) + seq![
        EventV::End(TagEnd::TableRow),
    ]
}

spec fn unit_events(u: Unit) -> Seq<EventV> {
    match u {
        Unit::Block(b) => block_events(b),
        Unit::Item(it) => crate::stream::item_events(it),
        Unit::Head(h) => head_events(h),
        Unit::Row(r) => row_events(r),
        Unit::Cell(c) => cell_events(c),
    }
}

spec fn units_events(us: Seq<Unit>) -> Seq<EventV>
    decreases us.len(),
{
    if us.len() == 0 {
        Seq::empty()
    } else {
        units_events(us.drop_last()) + unit_events(us.last())
    }
}

spec fn reg_units(r: Region) -> Seq<Unit> {
    match r {
        Region::Blocks(bs) => Seq::new(bs.len(), |k: int| Unit::Block(bs[k])),
        Region::Items(items) => Seq::new(items.len(), |k: int| Unit::Item(items[k])),
        Region::Table(h, rows) => seq![Unit::Head(h)] + Seq::new(
            rows.len(),
            |k: int| Unit::Row(rows[k]@),
        ),
        Region::Cells(cells) => Seq::new(cells.len(), |k: int| Unit::Cell(cells[k])),
    }
}

spec fn last_frame(c: RenderCtx) -> TableFrame {
    c.tables@.last()
}

/// What every unit and region keeps.
spec fn kept_all(a: RenderCtx, b: RenderCtx) -> bool {
    &&& b.lists@ == a.lists@
    &&& b.dl_tight@ == a.dl_tight@
    &&& b.defs@ == a.defs@
    &&& b.tables@.len() == a.tables@.len()
}

/// The state a unit needs.
spec fn unit_pre(u: Unit, c: RenderCtx) -> bool {
    match u {
        Unit::Block(b) => !(b is ThematicBreak) && ok_block(b),
        Unit::Item(it) => c.lists@.len() > 0 && ok_item(it, c.lists@.last()),
        Unit::Head(_) => c.tables@.len() > 0,
        Unit::Row(_) => c.tables@.len() > 0,
        Unit::Cell(_) => c.tables@.len() > 0 && last_frame(c).col < usize::MAX,
    }
}

spec fn th_td(head: bool) -> Seq<char> {
    if head {
        "th"@
    } else {
        "td"@
    }
}

/// What a unit renders from state `c`.
spec fn unit_html(u: Unit, c: RenderCtx, hl: Option<&dyn SyntaxHighlighter>) -> Seq<char> {
    let f = last_frame(c);
    match u {
        Unit::Block(b) => crate::ast::block_html_hl(b, hl),
        Unit::Item(it) => crate::ast::item_html_hl(it, c.lists@.last(), hl),
        Unit::Head(h) => "<thead>\n<tr>\n"@ + crate::ast::cells_html("th"@, h, f.alignments@)
            + "</tr>\n</thead>\n"@,
        Unit::Row(r) => (if f.had_rows {
            Seq::empty()
        } else {
            "<tbody>\n"@
        }) + "<tr>\n"@ + crate::ast::cells_html("td"@, r, f.alignments@) + "</tr>\n"@,
        Unit::Cell(cell) => "<"@ + th_td(f.in_head) + crate::ast::align_attr(
            crate::ast::align_of(f.alignments@, f.col as int),
        ) + ">"@ + crate::ast::list_inline_html(cell.content@) + "</"@ + th_td(f.in_head)
            + ">\n"@,
    }
}

/// The state a unit leaves from state `a`.
spec fn unit_post(u: Unit, a: RenderCtx, b: RenderCtx) -> bool {
    &&& kept_all(a, b)
    &&& match u {
        Unit::Block(_) | Unit::Item(_) => b.tables@ == a.tables@,
        _ => {
            &&& b.tables@.drop_last() == a.tables@.drop_last()
            &&& last_frame(b).alignments@ == last_frame(a).alignments@
            &&& match u {
                Unit::Head(_) => last_frame(b).had_rows == last_frame(a).had_rows
                    && !last_frame(b).in_head,
                Unit::Row(_) => last_frame(b).had_rows && !last_frame(b).in_head,
                _ => last_frame(b).had_rows == last_frame(a).had_rows && last_frame(b).in_head
                    == last_frame(a).in_head && last_frame(b).col == last_frame(a).col + 1,
            }
        },
    }
}

/// The state a region needs.
spec fn reg_pre(r: Region, c: RenderCtx) -> bool {
    match r {
        Region::Blocks(bs) => ok_blocks(bs),
        Region::Items(items) => c.lists@.len() > 0 && ok_items(
            items,
            c.lists@.last()),
        Region::Table(_, _) => c.tables@.len() > 0 && !last_frame(c).had_rows,
        Region::Cells(cells) => c.tables@.len() > 0 && last_frame(c).col == 0 && cells.len()
            < usize::MAX,
    }
}

/// The state after `k` units of a region, from state `a`.
spec fn reg_state(r: Region, k: int, a: RenderCtx, b: RenderCtx) -> bool {
    &&& kept_all(a, b)
    &&& match r {
        Region::Blocks(_) | Region::Items(_) => b.tables@ == a.tables@,
        _ => {
            &&& b.tables@.drop_last() == a.tables@.drop_last()
            &&& last_frame(b).alignments@ == last_frame(a).alignments@
            &&& match r {
                Region::Table(_, _) => last_frame(b).had_rows == (k >= 2) && (k >= 1
                    ==> !last_frame(b).in_head),
                _ => last_frame(b).had_rows == last_frame(a).had_rows && last_frame(b).in_head
                    == last_frame(a).in_head && last_frame(b).col == k,
            }
        },
    }
}

/// What the first `k` units of a region render, from state `a`.
spec fn reg_html(r: Region, k: int, a: RenderCtx, hl: Option<&dyn SyntaxHighlighter>) -> Seq<char> {
    let f = last_frame(a);
    match r {
        Region::Blocks(bs) => crate::ast::blocks_html_hl(bs.take(k), hl),
        Region::Items(items) => crate::ast::items_html_hl(items.take(k), a.lists@.last(), hl),
        Region::Table(h, rows) => if k == 0 {
            Seq::empty()
        } else {
            "<thead>\n<tr>\n"@ + crate::ast::cells_html("th"@, h, f.alignments@)
                + "</tr>\n</thead>\n"@ + if k >= 2 {
                "<tbody>\n"@ + crate::ast::rows_html(rows.take(k - 1), f.alignments@)
            } else {
                Seq::empty()
            }
        },
        Region::Cells(cells) => crate::ast::cells_html(th_td(f.in_head), cells.take(k), f.alignments@),
    }
}

proof fn lemma_units_append(a: Seq<Unit>, b: Seq<Unit>)
    ensures
        units_events(a + b) == units_events(a) + units_events(b),
    decreases b.len(),
{
    if b.len() == 0 {
        assert(a + b =~= a);
        assert(units_events(a) + units_events(b) =~= units_events(a));
    } else {
        lemma_units_append(a, b.drop_last());
        assert((a + b).drop_last() =~= a + b.drop_last());
        assert((a + b).last() == b.last());
        assert(units_events(a + b) =~= units_events(a) + units_events(b));
    }
}

/// The events of unit `k` of `us` follow those of the units before it.
proof fn lemma_units_at(us: Seq<Unit>, k: int)
    requires
        0 <= k < us.len(),
    ensures
        units_events(us) == units_events(us.take(k)) + (unit_events(us[k]) + units_events(
            us.skip(k + 1),
        )),
        units_events(us.take(k + 1)) == units_events(us.take(k)) + unit_events(us[k]),
{
    assert(us.take(k + 1).drop_last() =~= us.take(k));
    assert(us.take(k + 1).last() == us[k]);
    assert(us =~= us.take(k + 1) + us.skip(k + 1));
    lemma_units_append(us.take(k + 1), us.skip(k + 1));
    assert(units_events(us) =~= units_events(us.take(k)) + (unit_events(us[k]) + units_events(
        us.skip(k + 1),
    )));
}

proof fn lemma_blocks_units(bs: Seq<Block>)
    ensures
        blocks_events(bs) == units_events(reg_units(Region::Blocks(bs))),
    decreases bs.len(),
{
    if bs.len() > 0 {
        lemma_blocks_units(bs.drop_last());
        assert(reg_units(Region::Blocks(bs)).drop_last() =~= reg_units(
            Region::Blocks(bs.drop_last()),
        ));
    } else {
        assert(reg_units(Region::Blocks(bs)) =~= Seq::<Unit>::empty());
    }
}

proof fn lemma_items_units(items: Seq<ListItem>)
    ensures
        crate::stream::items_events(items) == units_events(reg_units(Region::Items(items))),
    decreases items.len(),
{
    if items.len() > 0 {
        lemma_items_units(items.drop_last());
        assert(reg_units(Region::Items(items)).drop_last() =~= reg_units(
            Region::Items(items.drop_last()),
        ));
    } else {
        assert(reg_units(Region::Items(items)) =~= Seq::<Unit>::empty());
    }
}

proof fn lemma_cells_units(cells: Seq<TableCell>)
    ensures
        crate::stream::cells_events(cells) == units_events(reg_units(Region::Cells(cells))),
    decreases cells.len(),
{
    if cells.len() > 0 {
        lemma_cells_units(cells.drop_last());
        assert(reg_units(Region::Cells(cells)).drop_last() =~= reg_units(
            Region::Cells(cells.drop_last()),
        ));
        assert(crate::stream::cells_events(cells) =~= crate::stream::cells_events(cells.drop_last())
            + cell_events(cells.last()));
    } else {
        assert(reg_units(Region::Cells(cells)) =~= Seq::<Unit>::empty());
    }
}

proof fn lemma_table_units(h: Seq<TableCell>, rows: Seq<Vec<TableCell>>)
    ensures
        head_events(h) + crate::stream::rows_events(rows) == units_events(
            reg_units(Region::Table(h, rows)),
        ),
    decreases rows.len(),
{
    if rows.len() > 0 {
        lemma_table_units(h, rows.drop_last());
        assert(reg_units(Region::Table(h, rows)).drop_last() =~= reg_units(
            Region::Table(h, rows.drop_last()),
        ));
        assert(reg_units(Region::Table(h, rows)).last() == Unit::Row(rows.last()@));
        assert(crate::stream::rows_events(rows) =~= crate::stream::rows_events(rows.drop_last())
            + row_events(rows.last()@));
        assert(head_events(h) + crate::stream::rows_events(rows) =~= (head_events(h)
            + crate::stream::rows_events(rows.drop_last())) + row_events(rows.last()@));
    } else {
        assert(reg_units(Region::Table(h, rows)) =~= seq![Unit::Head(h)]);
        assert(seq![Unit::Head(h)].drop_last() =~= Seq::<Unit>::empty());
        assert(seq![Unit::Head(h)].last() == Unit::Head(h));
        assert(units_events(seq![Unit::Head(h)].drop_last()) == Seq::<EventV>::empty());
        assert(units_events(seq![Unit::Head(h)]) =~= head_events(h));
        assert(crate::stream::rows_events(rows) =~= Seq::<EventV>::empty());
        assert(head_events(h) + crate::stream::rows_events(rows) =~= head_events(h));
    }
}

/// A unit's events open with a tag, but for a thematic break, whose one
/// event renders as the break does.
proof fn lemma_unit_shape(u: Unit)
    ensures
        unit_events(u).len() >= 1,
        !(unit_events(u)[0] is End),
        (u matches Unit::Block(b) && b is ThematicBreak) ==> unit_events(u) == seq![EventV::Rule]
            && leaf_html(EventV::Rule) == crate::ast::block_html(u->Block_0),
        !(u matches Unit::Block(b) && b is ThematicBreak) ==> unit_events(u)[0] is Start,
{
}

proof fn lemma_ok_blocks_at(bs: Seq<Block>, k: int)
    requires
        ok_blocks(bs),
        0 <= k < bs.len(),
    ensures
        ok_block(bs[k]),
    decreases bs.len(),
{
    if k < bs.len() - 1 {
        lemma_ok_blocks_at(bs.drop_last(), k);
    }
}

proof fn lemma_ok_items_at(items: Seq<ListItem>, tight: bool, k: int)
    requires
        ok_items(items, tight),
        0 <= k < items.len(),
    ensures
        ok_item(items[k], tight),
    decreases items.len(),
{
    if k < items.len() - 1 {
        lemma_ok_items_at(items.drop_last(), tight, k);
    }
}

spec fn step_ok(r: Region, k: int, a: RenderCtx, c: RenderCtx, d: RenderCtx, hl: Option<&dyn SyntaxHighlighter>) -> bool {
    &&& !(reg_units(r)[k] matches Unit::Block(b) && b is ThematicBreak) ==> unit_pre(
        reg_units(r)[k],
        c,
    )
    &&& unit_post(reg_units(r)[k], c, d) ==> reg_state(r, k + 1, a, d) && reg_html(r, k + 1, a, hl)
        == reg_html(r, k, a, hl) + unit_html(reg_units(r)[k], c, hl)
    &&& (reg_units(r)[k] matches Unit::Block(b) && b is ThematicBreak) && inline_kept(c, d)
        && d.defs@ == c.defs@ ==> reg_state(r, k + 1, a, d) && reg_html(r, k + 1, a, hl)
        == reg_html(r, k, a, hl) + crate::ast::block_html(reg_units(r)[k]->Block_0)
}

proof fn lemma_step_blocks(bs: Seq<Block>, k: int, a: RenderCtx, c: RenderCtx, d: RenderCtx, hl: Option<&dyn SyntaxHighlighter>)
    requires
        reg_pre(Region::Blocks(bs), a),
        0 <= k < bs.len(),
        reg_state(Region::Blocks(bs), k, a, c),
    ensures
        step_ok(Region::Blocks(bs), k, a, c, d, hl),
{
    lemma_ok_blocks_at(bs, k);
    assert(bs.take(k + 1).drop_last() =~= bs.take(k));
    assert(bs.take(k + 1).last() == bs[k]);
    assert(reg_units(Region::Blocks(bs))[k] == Unit::Block(bs[k]));
}

proof fn lemma_step_items(items: Seq<ListItem>, k: int, a: RenderCtx, c: RenderCtx, d: RenderCtx, hl: Option<&dyn SyntaxHighlighter>)
    requires
        reg_pre(Region::Items(items), a),
        0 <= k < items.len(),
        reg_state(Region::Items(items), k, a, c),
    ensures
        step_ok(Region::Items(items), k, a, c, d, hl),
{
    lemma_ok_items_at(items, a.lists@.last(), k);
    assert(items.take(k + 1).drop_last() =~= items.take(k));
    assert(items.take(k + 1).last() == items[k]);
    assert(reg_units(Region::Items(items))[k] == Unit::Item(items[k]));
}

proof fn lemma_step_table(
    h: Seq<TableCell>,
    rows: Seq<Vec<TableCell>>,
    k: int,
    a: RenderCtx,
    c: RenderCtx,
    d: RenderCtx,
    hl: Option<&dyn SyntaxHighlighter>,
)
    requires
        reg_pre(Region::Table(h, rows), a),
        0 <= k < rows.len() + 1,
        reg_state(Region::Table(h, rows), k, a, c),
    ensures
        step_ok(Region::Table(h, rows), k, a, c, d, hl),
{
    let r = Region::Table(h, rows);
    if k >= 1 {
        let t = rows.take(k);
        assert(t.drop_last() =~= rows.take(k - 1));
        assert(t.last() == rows[k - 1]);
        if k == 1 {
            assert(rows.take(0) =~= Seq::<Vec<TableCell>>::empty());
        }
        assert(reg_units(r)[k] == Unit::Row(rows[k - 1]@));
    } else {
        assert(reg_units(r)[k] == Unit::Head(h));
    }
    if unit_post(reg_units(r)[k], c, d) {
        assert(d.tables@.drop_last() =~= a.tables@.drop_last());
        let aa = last_frame(a).alignments@;
        let head = "<thead>\n<tr>\n"@ + crate::ast::cells_html("th"@, h, aa) + "</tr>\n</thead>\n"@;
        if k == 0 {
            assert(reg_html(r, 0, a, hl) == Seq::<char>::empty());
            assert(reg_html(r, 1, a, hl) =~= head);
            assert(unit_html(reg_units(r)[0], c, hl) =~= head);
        } else {
            let row = "<tr>\n"@ + crate::ast::cells_html("td"@, rows[k - 1]@, aa) + "</tr>\n"@;
            assert(crate::ast::rows_html(rows.take(k), aa) =~= crate::ast::rows_html(rows.take(k - 1), aa) + row);
            assert(reg_html(r, k + 1, a, hl) =~= head + ("<tbody>\n"@ + crate::ast::rows_html(rows.take(k), aa)));
            if k == 1 {
                assert(crate::ast::rows_html(rows.take(0), aa) =~= Seq::<char>::empty());
                assert(reg_html(r, k, a, hl) =~= head);
                assert(unit_html(reg_units(r)[k], c, hl) =~= "<tbody>\n"@ + row);
            } else {
                assert(reg_html(r, k, a, hl) =~= head + ("<tbody>\n"@ + crate::ast::rows_html(rows.take(k - 1), aa)));
                assert(unit_html(reg_units(r)[k], c, hl) =~= row);
            }
        }
        assert(reg_html(r, k + 1, a, hl) =~= reg_html(r, k, a, hl) + unit_html(reg_units(r)[k], c, hl));
    }
}

proof fn lemma_step_cells(cells: Seq<TableCell>, k: int, a: RenderCtx, c: RenderCtx, d: RenderCtx, hl: Option<&dyn SyntaxHighlighter>)
    requires
        reg_pre(Region::Cells(cells), a),
        0 <= k < cells.len(),
        reg_state(Region::Cells(cells), k, a, c),
    ensures
        step_ok(Region::Cells(cells), k, a, c, d, hl),
{
    let r = Region::Cells(cells);
    assert(cells.take(k + 1).drop_last() =~= cells.take(k));
    assert(cells.take(k + 1).last() == cells[k]);
    assert(reg_units(r)[k] == Unit::Cell(cells[k]));
    if unit_post(reg_units(r)[k], c, d) {
        assert(d.tables@.drop_last() =~= a.tables@.drop_last());
        assert(reg_html(r, k + 1, a, hl) =~= reg_html(r, k, a, hl) + unit_html(reg_units(r)[k], c, hl));
    }
}

/// One step of a region: unit `k` finds the state it needs, and what it
/// renders and leaves extend the region's rendering and state.
proof fn lemma_reg_step(r: Region, k: int, a: RenderCtx, c: RenderCtx, d: RenderCtx, hl: Option<&dyn SyntaxHighlighter>)
    requires
        reg_pre(r, a),
        0 <= k < reg_units(r).len(),
        reg_state(r, k, a, c),
    ensures
        step_ok(r, k, a, c, d, hl),
{
    match r {
        Region::Blocks(bs) => lemma_step_blocks(bs, k, a, c, d, hl),
        Region::Items(items) => lemma_step_items(items, k, a, c, d, hl),
        Region::Table(h, rows) => lemma_step_table(h, rows, k, a, c, d, hl),
        Region::Cells(cells) => lemma_step_cells(cells, k, a, c, d, hl),
    }
}

pub(crate) proof fn lemma_code_text_html(lines: Seq<String>)
    ensures
        spec_escape_html(crate::stream::code_text(lines)) == crate::ast::code_lines_html(lines),
    decreases lines.len(),
{
    reveal_strlit("\n");
    if lines.len() > 0 {
        lemma_code_text_html(lines.drop_last());
        let v = crate::highlight::views(lines);
        assert(v.drop_last() =~= crate::highlight::views(lines.drop_last()));
        assert(v.last() == lines.last()@);
        let a = crate::highlight::spec_code_text(v.drop_last());
        crate::html_escape::lemma_escape_concat(a + lines.last()@, seq!['\n']);
        crate::html_escape::lemma_escape_concat(a, lines.last()@);
        assert(spec_escape_html(seq!['\n']) =~= seq!['\n']) by {
            assert(seq!['\n'].drop_last() =~= Seq::<char>::empty());
            assert(seq!['\n'].last() == '\n');
            assert(spec_escape_html(Seq::<char>::empty()) == Seq::<char>::empty());
            assert(crate::html_escape::escape_char('\n') =~= seq!['\n']);
        }
    } else {
        assert(crate::highlight::views(lines) =~= Seq::<Seq<char>>::empty());
    }
}

pub(crate) proof fn lemma_html_lines(lines: Seq<String>)
    ensures
        crate::stream::html_line_events(lines).len() == lines.len(),
        forall|j: int|
            0 <= j < lines.len() ==> #[trigger] crate::stream::html_line_events(lines)[j]
                == EventV::Html(lines[j]@),
    decreases lines.len(),
{
    if lines.len() > 0 {
        lemma_html_lines(lines.drop_last());
    }
}

pub(crate) proof fn lemma_cells_len(cells: Seq<TableCell>)
    ensures
        crate::stream::cells_events(cells).len() >= cells.len(),
    decreases cells.len(),
{
    if cells.len() > 0 {
        lemma_cells_len(cells.drop_last());
    }
}

/// `open`, then `mid`, then `close`.
pub(crate) open spec fn wrap(open: EventV, mid: Seq<EventV>, close: EventV) -> Seq<EventV> {
    seq![open] + mid + seq![close]
}

proof fn lemma_at_wrap(ev: Seq<EventV>, p: int, open: EventV, mid: Seq<EventV>, close: EventV)
    requires
        at(ev, p, wrap(open, mid, close)),
    ensures
        ev[p] == open,
        at(ev, p + 1, mid + seq![close]),
        at(ev, p + 1, mid),
        ev[p + 1 + mid.len()] == close,
        wrap(open, mid, close).len() == mid.len() + 2,
{
    assert(wrap(open, mid, close) =~= seq![open] + (mid + seq![close]));
    lemma_at_split(ev, p, seq![open], mid + seq![close]);
    lemma_at_split(ev, p + 1, mid, seq![close]);
}

/// The walk's view of a region to render: its state is met, its events
/// stand at `p`, and a closer or the slice's end follows.
spec fn region_hyp(ev: Seq<EventV>, p: int, r: Region, c: RenderCtx) -> bool {
    let re = units_events(reg_units(r));
    &&& reg_pre(r, c)
    &&& at(ev, p, re)
    &&& (p + re.len() == ev.len() || ev[p + re.len()] is End)
}

// ---------------------------------------------------------------------------
// Nesting depth of event runs
// ---------------------------------------------------------------------------

pub(crate) open spec fn delta(e: EventV) -> int {
    match e {
        EventV::Start(_) => 1,
        EventV::End(_) => -1,
        _ => 0,
    }
}

/// Openers minus closers.
pub(crate) open spec fn dsum(s: Seq<EventV>) -> int
    decreases s.len(),
{
    if s.len() == 0 {
        0
    } else {
        dsum(s.drop_last()) + delta(s.last())
    }
}

/// A run that closes all it opens, never going below its start.
pub(crate) open spec fn nn(s: Seq<EventV>) -> bool {
    &&& dsum(s) == 0
    &&& forall|j: int| 0 <= j <= s.len() ==> dsum(#[trigger] s.take(j)) >= 0
}

/// An opener, a run, and the opener's closer.
pub(crate) open spec fn bal(s: Seq<EventV>) -> bool {
    &&& s.len() >= 2
    &&& s[0] is Start
    &&& dsum(s) == 0
    &&& forall|j: int| 1 <= j < s.len() ==> dsum(#[trigger] s.take(j)) >= 1
}

pub(crate) proof fn lemma_dsum_append(a: Seq<EventV>, b: Seq<EventV>)
    ensures
        dsum(a + b) == dsum(a) + dsum(b),
    decreases b.len(),
{
    if b.len() == 0 {
        assert(a + b =~= a);
    } else {
        lemma_dsum_append(a, b.drop_last());
        assert((a + b).drop_last() =~= a + b.drop_last());
    }
}

pub(crate) proof fn lemma_nn_append(a: Seq<EventV>, b: Seq<EventV>)
    requires
        nn(a),
        nn(b),
    ensures
        nn(a + b),
{
    lemma_dsum_append(a, b);
    assert forall|j: int| 0 <= j <= (a + b).len() implies dsum(#[trigger] (a + b).take(j)) >= 0 by {
        if j <= a.len() {
            assert((a + b).take(j) =~= a.take(j));
        } else {
            assert((a + b).take(j) =~= a + b.take(j - a.len()));
            lemma_dsum_append(a, b.take(j - a.len()));
            assert(a.take(a.len() as int) =~= a);
        }
    }
}

pub(crate) proof fn lemma_wrap_bal(open: EventV, mid: Seq<EventV>, close: EventV)
    requires
        open is Start,
        close is End,
        nn(mid),
    ensures
        bal(wrap(open, mid, close)),
        nn(wrap(open, mid, close)),
{
    let w = wrap(open, mid, close);
    assert(w =~= seq![open] + (mid + seq![close]));
    lemma_dsum_append(seq![open], mid + seq![close]);
    lemma_dsum_append(mid, seq![close]);
    assert(seq![open].drop_last() =~= Seq::<EventV>::empty());
    assert(seq![close].drop_last() =~= Seq::<EventV>::empty());
    assert(dsum(Seq::<EventV>::empty()) == 0);
    assert(seq![open].last() == open);
    assert(seq![close].last() == close);
    assert(dsum(seq![open]) == 1);
    assert(dsum(seq![close]) == -1);
    assert forall|j: int| 1 <= j < w.len() implies dsum(#[trigger] w.take(j)) >= 1 by {
        assert(w.take(j) =~= seq![open] + mid.take(j - 1));
        lemma_dsum_append(seq![open], mid.take(j - 1));
    }
    assert forall|j: int| 0 <= j <= w.len() implies dsum(#[trigger] w.take(j)) >= 0 by {
        if j == 0 {
            assert(w.take(0) =~= Seq::<EventV>::empty());
        } else if j == w.len() {
            assert(w.take(j) =~= w);
        }
    }
}

proof fn lemma_leaf_nn(e: EventV)
    requires
        !(e is Start),
        !(e is End),
    ensures
        nn(seq![e]),
{
    assert(seq![e].drop_last() =~= Seq::<EventV>::empty());
    assert(dsum(Seq::<EventV>::empty()) == 0);
    assert(seq![e].last() == e);
    assert(dsum(seq![e]) == 0);
    assert forall|j: int| 0 <= j <= 1 implies dsum(#[trigger] seq![e].take(j)) >= 0 by {
        if j == 0 {
            assert(seq![e].take(0) =~= Seq::<EventV>::empty());
        } else {
            assert(seq![e].take(1) =~= seq![e]);
        }
    }
}

proof fn lemma_empty_nn()
    ensures
        nn(Seq::<EventV>::empty()),
{
    assert forall|j: int| 0 <= j <= 0 implies dsum(#[trigger] Seq::<EventV>::empty().take(j)) >= 0 by {
        assert(Seq::<EventV>::empty().take(j) =~= Seq::<EventV>::empty());
    }
}

pub(crate) proof fn lemma_inline_nn(i: Inline)
    ensures
        nn(inline_events(i)),
        container(i) ==> bal(inline_events(i)),
    decreases i,
{
    match i {
        Inline::Emphasis { content, .. } => {
            assert(decreases_to!(i => content));
            assert(decreases_to!(content => content@));
            lemma_inlines_nn(content@);
            assert(inline_events(i) =~= wrap(EventV::Start(TagV::Emphasis), inlines_events(content@), EventV::End(TagEnd::Emphasis)));
            lemma_wrap_bal(EventV::Start(TagV::Emphasis), inlines_events(content@), EventV::End(TagEnd::Emphasis));
        },
        Inline::Strong { content, .. } => {
            assert(decreases_to!(i => content));
            assert(decreases_to!(content => content@));
            lemma_inlines_nn(content@);
            assert(inline_events(i) =~= wrap(EventV::Start(TagV::Strong), inlines_events(content@), EventV::End(TagEnd::Strong)));
            lemma_wrap_bal(EventV::Start(TagV::Strong), inlines_events(content@), EventV::End(TagEnd::Strong));
        },
        Inline::Strikethrough(content) => {
            assert(decreases_to!(i => content));
            assert(decreases_to!(content => content@));
            lemma_inlines_nn(content@);
            assert(inline_events(i) =~= wrap(EventV::Start(TagV::Strikethrough), inlines_events(content@), EventV::End(TagEnd::Strikethrough)));
            lemma_wrap_bal(EventV::Start(TagV::Strikethrough), inlines_events(content@), EventV::End(TagEnd::Strikethrough));
        },
        Inline::Link(link) => {
            assert(decreases_to!(i => link));
            assert(decreases_to!(link => link.text));
            assert(decreases_to!(link.text => link.text@));
            lemma_inlines_nn(link.text@);
            let o = inline_events(i)[0];
            assert(inline_events(i) =~= wrap(o, inlines_events(link.text@), EventV::End(TagEnd::Link)));
            lemma_wrap_bal(o, inlines_events(link.text@), EventV::End(TagEnd::Link));
        },
        Inline::Image(img) => {
            lemma_empty_nn();
            assert(inline_events(i) =~= wrap(inline_events(i)[0], Seq::empty(), EventV::End(TagEnd::Image)));
            lemma_wrap_bal(inline_events(i)[0], Seq::empty(), EventV::End(TagEnd::Image));
        },
        Inline::Autolink(a) => {
            lemma_leaf_nn(EventV::Text(a.text@));
            assert(inline_events(i) =~= wrap(inline_events(i)[0], seq![EventV::Text(a.text@)], EventV::End(TagEnd::Link)));
            lemma_wrap_bal(inline_events(i)[0], seq![EventV::Text(a.text@)], EventV::End(TagEnd::Link));
        },
        _ => {
            lemma_leaf_nn(inline_events(i)[0]);
            assert(inline_events(i) =~= seq![inline_events(i)[0]]);
        },
    }
}

pub(crate) proof fn lemma_inlines_nn(s: Seq<Inline>)
    ensures
        nn(inlines_events(s)),
    decreases s,
{
    if s.len() == 0 {
        lemma_empty_nn();
    } else {
        lemma_inlines_nn(s.drop_last());
        lemma_inline_nn(s.last());
        lemma_nn_append(inlines_events(s.drop_last()), inline_events(s.last()));
    }
}

pub(crate) proof fn lemma_cells_nn(cells: Seq<TableCell>)
    ensures
        nn(crate::stream::cells_events(cells)),
    decreases cells.len(),
{
    if cells.len() == 0 {
        lemma_empty_nn();
    } else {
        lemma_cells_nn(cells.drop_last());
        lemma_inlines_nn(cells.last().content@);
        lemma_wrap_bal(EventV::Start(TagV::TableCell), inlines_events(cells.last().content@), EventV::End(TagEnd::TableCell));
        assert(crate::stream::cells_events(cells) =~= crate::stream::cells_events(cells.drop_last()) + wrap(EventV::Start(TagV::TableCell), inlines_events(cells.last().content@), EventV::End(TagEnd::TableCell)));
        lemma_nn_append(crate::stream::cells_events(cells.drop_last()), wrap(EventV::Start(TagV::TableCell), inlines_events(cells.last().content@), EventV::End(TagEnd::TableCell)));
    }
}

pub(crate) proof fn lemma_rows_nn(rows: Seq<Vec<TableCell>>)
    ensures
        nn(crate::stream::rows_events(rows)),
    decreases rows.len(),
{
    if rows.len() == 0 {
        lemma_empty_nn();
    } else {
        lemma_rows_nn(rows.drop_last());
        lemma_cells_nn(rows.last()@);
        lemma_wrap_bal(EventV::Start(TagV::TableRow), crate::stream::cells_events(rows.last()@), EventV::End(TagEnd::TableRow));
        assert(crate::stream::rows_events(rows) =~= crate::stream::rows_events(rows.drop_last()) + row_events(rows.last()@));
        lemma_nn_append(crate::stream::rows_events(rows.drop_last()), row_events(rows.last()@));
    }
}

pub(crate) proof fn lemma_html_lines_nn(lines: Seq<String>)
    ensures
        nn(crate::stream::html_line_events(lines)),
    decreases lines.len(),
{
    if lines.len() == 0 {
        lemma_empty_nn();
    } else {
        lemma_html_lines_nn(lines.drop_last());
        lemma_leaf_nn(EventV::Html(lines.last()@));
        lemma_nn_append(crate::stream::html_line_events(lines.drop_last()), seq![EventV::Html(lines.last()@)]);
    }
}

pub(crate) proof fn lemma_block_nn(b: Block)
    ensures
        nn(block_events(b)),
        !(b is ThematicBreak) ==> bal(block_events(b)),
    decreases b, 1nat,
{
    let e0 = block_events(b)[0];
    match b {
        Block::Paragraph(inl) => {
            lemma_inlines_nn(inl@);
            assert(block_events(b) =~= wrap(e0, inlines_events(inl@), EventV::End(TagEnd::Paragraph)));
            lemma_wrap_bal(e0, inlines_events(inl@), EventV::End(TagEnd::Paragraph));
        },
        Block::Heading(h) => {
            lemma_inlines_nn(h.content@);
            assert(block_events(b) =~= wrap(e0, inlines_events(h.content@), EventV::End(TagEnd::Heading)));
            lemma_wrap_bal(e0, inlines_events(h.content@), EventV::End(TagEnd::Heading));
        },
        Block::ThematicBreak(_) => {
            lemma_leaf_nn(EventV::Rule);
        },
        Block::CodeBlock(code) => {
            let mid: Seq<EventV> = if code.lines@.len() > 0 {
                seq![EventV::Text(crate::stream::code_text(code.lines@))]
            } else {
                Seq::empty()
            };
            if code.lines@.len() > 0 {
                lemma_leaf_nn(EventV::Text(crate::stream::code_text(code.lines@)));
            } else {
                lemma_empty_nn();
            }
            assert(block_events(b) =~= wrap(e0, mid, EventV::End(TagEnd::CodeBlock)));
            lemma_wrap_bal(e0, mid, EventV::End(TagEnd::CodeBlock));
        },
        Block::HtmlBlock(lines) => {
            lemma_html_lines_nn(lines@);
            assert(block_events(b) =~= wrap(e0, crate::stream::html_line_events(lines@), EventV::End(TagEnd::HtmlBlock)));
            lemma_wrap_bal(e0, crate::stream::html_line_events(lines@), EventV::End(TagEnd::HtmlBlock));
        },
        Block::BlockQuote(children) => {
            assert(decreases_to!(b => children));
            assert(decreases_to!(children => children@));
            lemma_blocks_nn(children@);
            assert(block_events(b) =~= wrap(e0, blocks_events(children@), EventV::End(TagEnd::BlockQuote)));
            lemma_wrap_bal(e0, blocks_events(children@), EventV::End(TagEnd::BlockQuote));
        },
        Block::List(list) => {
            assert(decreases_to!(b => list));
            assert(decreases_to!(list => list.items));
            assert(decreases_to!(list.items => list.items@));
            lemma_items_nn(list.items@);
            assert(block_events(b) =~= wrap(e0, crate::stream::items_events(list.items@), EventV::End(TagEnd::List)));
            lemma_wrap_bal(e0, crate::stream::items_events(list.items@), EventV::End(TagEnd::List));
        },
        Block::Table(t) => {
            lemma_cells_nn(t.header@);
            lemma_rows_nn(t.rows@);
            lemma_wrap_bal(EventV::Start(TagV::TableHead), crate::stream::cells_events(t.header@), EventV::End(TagEnd::TableHead));
            assert(head_events(t.header@) == wrap(EventV::Start(TagV::TableHead), crate::stream::cells_events(t.header@), EventV::End(TagEnd::TableHead)));
            lemma_nn_append(head_events(t.header@), crate::stream::rows_events(t.rows@));
            let mid = head_events(t.header@) + crate::stream::rows_events(t.rows@);
            assert(block_events(b) =~= wrap(e0, mid, EventV::End(TagEnd::Table)));
            lemma_wrap_bal(e0, mid, EventV::End(TagEnd::Table));
        },
    }
}

pub(crate) proof fn lemma_blocks_nn(bs: Seq<Block>)
    ensures
        nn(blocks_events(bs)),
    decreases bs, 0nat,
{
    if bs.len() == 0 {
        lemma_empty_nn();
    } else {
        lemma_blocks_nn(bs.drop_last());
        lemma_block_nn(bs.last());
        lemma_nn_append(blocks_events(bs.drop_last()), block_events(bs.last()));
    }
}

pub(crate) proof fn lemma_item_nn(it: ListItem)
    ensures
        bal(crate::stream::item_events(it)),
        nn(crate::stream::item_events(it)),
    decreases it, 0nat,
{
    assert(decreases_to!(it => it.blocks));
    assert(decreases_to!(it.blocks => it.blocks@));
    lemma_blocks_nn(it.blocks@);
    let t: Seq<EventV> = match it.task {
        Some(c) => seq![EventV::TaskListMarker(c)],
        None => Seq::empty(),
    };
    match it.task {
        Some(c) => lemma_leaf_nn(EventV::TaskListMarker(c)),
        None => lemma_empty_nn(),
    }
    lemma_nn_append(t, blocks_events(it.blocks@));
    assert(crate::stream::item_events(it) =~= wrap(EventV::Start(TagV::Item), t + blocks_events(it.blocks@), EventV::End(TagEnd::Item)));
    lemma_wrap_bal(EventV::Start(TagV::Item), t + blocks_events(it.blocks@), EventV::End(TagEnd::Item));
}

pub(crate) proof fn lemma_items_nn(items: Seq<ListItem>)
    ensures
        nn(crate::stream::items_events(items)),
    decreases items, 0nat,
{
    if items.len() == 0 {
        lemma_empty_nn();
    } else {
        lemma_items_nn(items.drop_last());
        lemma_item_nn(items.last());
        lemma_nn_append(crate::stream::items_events(items.drop_last()), crate::stream::item_events(items.last()));
    }
}

pub(crate) proof fn lemma_blocks_append(a: Seq<Block>, b: Seq<Block>)
    ensures
        blocks_events(a + b) == blocks_events(a) + blocks_events(b),
    decreases b.len(),
{
    if b.len() == 0 {
        assert(a + b =~= a);
        assert(blocks_events(a) + blocks_events(b) =~= blocks_events(a));
    } else {
        lemma_blocks_append(a, b.drop_last());
        assert((a + b).drop_last() =~= a + b.drop_last());
        assert((a + b).last() == b.last());
        assert(blocks_events(a + b) =~= blocks_events(a) + blocks_events(b));
    }
}

/// The events of block `k` of `bs` follow those of the blocks before it.
pub(crate) proof fn lemma_blocks_at(bs: Seq<Block>, k: int)
    requires
        0 <= k < bs.len(),
    ensures
        blocks_events(bs) == blocks_events(bs.take(k)) + (block_events(bs[k]) + blocks_events(
            bs.skip(k + 1),
        )),
        blocks_events(bs.take(k + 1)) == blocks_events(bs.take(k)) + block_events(bs[k]),
{
    assert(bs.take(k + 1).drop_last() =~= bs.take(k));
    assert(bs.take(k + 1).last() == bs[k]);
    assert(bs =~= bs.take(k + 1) + bs.skip(k + 1));
    lemma_blocks_append(bs.take(k + 1), bs.skip(k + 1));
    assert(blocks_events(bs) =~= blocks_events(bs.take(k)) + (block_events(bs[k]) + blocks_events(
        bs.skip(k + 1),
    )));
}

// ---------------------------------------------------------------------------
// Inline walk
// ---------------------------------------------------------------------------

/// Render one inline leaf event; the cursor moves by exactly one.
fn render_inline_leaf(events: &[Event], pos: usize, ctx: &mut RenderCtx, out: &mut Vec<char>) -> (np: usize)
    requires
        pos < events@.len(),
    ensures
        np == pos + 1,
        inline_kept(*old(ctx), *final(ctx)),
        !(event_views(events@)[pos as int] is FootnoteReference) ==> final(out)@ == old(out)@
            + leaf_html(event_views(events@)[pos as int]),
{
    let ghost o = out@;
    match &events[pos] {
        Event::Text(s) => push_escaped_string(out, s),
        Event::Code(s) => {
            push_str(out, "<code>");
            push_escaped_string(out, s);
            push_str(out, "</code>");
        },
        Event::MathInline(s) => {
            let h = crate::math::render_inline_math(s.as_str());
            push_string(out, &h);
        },
        Event::MathDisplay(s) => {
            let h = crate::math::render_display_math(s.as_str());
            push_string(out, &h);
        },
        Event::InlineHtml(s) => push_string(out, s),
        Event::Html(s) => {
            push_string(out, s);
            out.push('\n');
        },
        Event::FootnoteReference { label, number } => {
            let occurrence = bump(&mut ctx.seen, label);
            push_footnote_ref(out, *number, occurrence);
        },
        Event::SoftBreak => out.push('\n'),
        Event::HardBreak => push_str(out, "<br />\n"),
        Event::Rule => push_str(out, "<hr />\n"),
        Event::TaskListMarker(_) => {},
        Event::Start(_) => {},
        Event::End(_) => {},
    }
    proof {
        reveal_strlit("\n");
        let e = event_views(events@)[pos as int];
        assert(e == events@[pos as int]@);
        if !(e is FootnoteReference) {
            assert(out@ =~= o + leaf_html(e));
        }
    }
    pos + 1
}

/// Render the inline opener at `pos`; the cursor ends past its closer.
#[verifier::rlimit(40)]
fn render_inline_at(
    events: &[Event],
    pos: usize,
    ctx: &mut RenderCtx,
    out: &mut Vec<char>,
    Ghost(i): Ghost<Inline>,
) -> (np: usize)
    requires
        pos < events@.len(),
        events@[pos as int] is Start,
    ensures
        pos < np <= events@.len(),
        inline_kept(*old(ctx), *final(ctx)),
        container(i) && at(event_views(events@), pos as int, inline_events(i)) ==> np == pos
            + inline_events(i).len() && final(out)@ == old(out)@ + crate::ast::inline_html(i),
    decreases events@.len() + 1 - pos, 1int,
{
    let ghost ev = event_views(events@);
    let ghost o = out@;
    let ghost hyp = container(i) && at(ev, pos as int, inline_events(i));
    let ghost inner: Seq<Inline> = match i {
        Inline::Emphasis { content, .. } => content@,
        Inline::Strong { content, .. } => content@,
        Inline::Strikethrough(content) => content@,
        Inline::Link(link) => link.text@,
        Inline::Autolink(a) => seq![Inline::Text(a.text)],
        _ => Seq::empty(),
    };
    proof {
        if hyp {
            assert(ev[pos as int] == events@[pos as int]@);
            reveal_with_fuel(inlines_events, 2);
            match i {
                Inline::Image(img) => {
                    assert(inline_events(i) =~= seq![inline_events(i)[0]] + seq![inline_events(i)[1]]);
                    lemma_at_split(ev, pos as int, seq![inline_events(i)[0]], seq![inline_events(i)[1]]);
                },
                _ => {
                    let tail = inlines_events(inner) + seq![inline_events(i).last()];
                    assert(inline_events(i) =~= seq![inline_events(i)[0]] + tail);
                    lemma_at_split(ev, pos as int, seq![inline_events(i)[0]], tail);
                },
            }
        }
    }
    match &events[pos] {
        Event::Start(tag) => match tag {
            Tag::Emphasis => {
                push_str(out, "<em>");
                let np = render_inlines_until(events, pos + 1, ctx, out, TagEnd::Emphasis, Ghost(inner));
                push_str(out, "</em>");
                proof {
                    if hyp {
                        assert(out@ =~= o + crate::ast::inline_html(i));
                    }
                }
                np
            },
            Tag::Strong => {
                push_str(out, "<strong>");
                let np = render_inlines_until(events, pos + 1, ctx, out, TagEnd::Strong, Ghost(inner));
                push_str(out, "</strong>");
                proof {
                    if hyp {
                        assert(out@ =~= o + crate::ast::inline_html(i));
                    }
                }
                np
            },
            Tag::Strikethrough => {
                push_str(out, "<del>");
                let np = render_inlines_until(events, pos + 1, ctx, out, TagEnd::Strikethrough, Ghost(inner));
                push_str(out, "</del>");
                proof {
                    if hyp {
                        assert(out@ =~= o + crate::ast::inline_html(i));
                    }
                }
                np
            },
            Tag::Link { url, title } => {
                push_link_open(out, url, title);
                let ghost mid = out@;
                let np = render_inlines_until(events, pos + 1, ctx, out, TagEnd::Link, Ghost(inner));
                push_str(out, "</a>");
                proof {
                    if hyp {
                        match i {
                            Inline::Link(link) => {
                                assert(opt_str(*title) == opt_str(link.title));
                                assert(out@ =~= o + crate::ast::inline_html(i));
                            },
                            Inline::Autolink(a) => {
                                assert(crate::ast::list_inline_html(inner) =~= spec_escape_html(a.text@)) by {
                                    reveal_with_fuel(crate::ast::list_inline_html, 2);
                                }
                                assert(out@ =~= o + crate::ast::inline_html(i));
                            },
                            _ => {},
                        }
                    }
                }
                np
            },
            Tag::Image { alt, url, title } => {
                push_image(out, alt, url, title);
                // No children were emitted: consume through the closer.
                let mut p: usize = pos + 1;
                while p < events.len()
                    invariant_except_break
                        pos < p <= events@.len(),
                        ev == event_views(events@),
                        hyp ==> pos + 1 < events@.len() && ev[pos + 1] == EventV::End(TagEnd::Image),
                        hyp ==> p == pos + 1,
                    ensures
                        pos < p <= events@.len(),
                        hyp ==> p == pos + 2,
                    decreases events@.len() - p,
                {
                    p += 1;
                    let closed = match &events[p - 1] {
                        Event::End(TagEnd::Image) => true,
                        _ => false,
                    };
                    proof {
                        if hyp {
                            assert(ev[pos + 1] == events@[pos + 1]@);
                        }
                    }
                    if closed {
                        break;
                    }
                }
                proof {
                    if hyp {
                        match i {
                            Inline::Image(img) => {
                                assert(opt_str(*title) == opt_str(img.title));
                                assert(out@ =~= o + crate::ast::inline_html(i));
                            },
                            _ => {},
                        }
                    }
                }
                p
            },
            // Block-level openers cannot occur inside inline content of a
            // document: skip the opener and keep the cursor moving.
            _ => pos + 1,
        },
        _ => pos + 1,
    }
}

/// Render inline content until a closer, which is consumed; a closer of
/// another kind also ends the run.
fn render_inlines_until(
    events: &[Event],
    pos: usize,
    ctx: &mut RenderCtx,
    out: &mut Vec<char>,
    stop: TagEnd,
    Ghost(s): Ghost<Seq<Inline>>,
) -> (np: usize)
    requires
        pos <= events@.len(),
    ensures
        pos <= np <= events@.len(),
        inline_kept(*old(ctx), *final(ctx)),
        at(event_views(events@), pos as int, inlines_events(s) + seq![EventV::End(stop)]) ==> np
            == pos + inlines_events(s).len() + 1 && final(out)@ == old(out)@
            + crate::ast::list_inline_html(s),
    decreases events@.len() + 1 - pos, 2int,
{
    let ghost ev = event_views(events@);
    let ghost hyp = at(ev, pos as int, inlines_events(s) + seq![EventV::End(stop)]);
    let ghost mut k: int = 0;
    proof {
        if hyp {
            lemma_at_split(ev, pos as int, inlines_events(s), seq![EventV::End(stop)]);
            assert(s.take(0) =~= Seq::<Inline>::empty());
        }
    }
    let mut p: usize = pos;
    while p < events.len()
        invariant
            pos <= p <= events@.len(),
            inline_kept(*old(ctx), *ctx),
            ev == event_views(events@),
            hyp == at(ev, pos as int, inlines_events(s) + seq![EventV::End(stop)]),
            hyp ==> at(ev, pos as int, inlines_events(s)),
            hyp ==> ev[pos + inlines_events(s).len()] == EventV::End(stop),
            hyp ==> 0 <= k <= s.len() && p == pos + inlines_events(s.take(k)).len()
                && out@ == old(out)@ + crate::ast::list_inline_html(s.take(k)),
        decreases events@.len() - p,
    {
        proof {
            if hyp {
                assert(ev[p as int] == events@[p as int]@);
                if k < s.len() {
                    lemma_inlines_at(s, k);
                    lemma_inline_shape(s[k]);
                    assert(inlines_events(s) =~= inlines_events(s.take(k)) + (inline_events(s[k]) + inlines_events(s.skip(k + 1))));
                    lemma_at_split(ev, pos as int, inlines_events(s.take(k)), inline_events(s[k]) + inlines_events(s.skip(k + 1)));
                    lemma_at_split(ev, p as int, inline_events(s[k]), inlines_events(s.skip(k + 1)));
                } else {
                    assert(s.take(k) =~= s);
                }
            }
        }
        match &events[p] {
            Event::Start(_) => {
                let ghost sk = if 0 <= k < s.len() { s[k] } else { Inline::SoftBreak };
                p = render_inline_at(events, p, ctx, out, Ghost(sk));
                proof {
                    if hyp {
                        k = k + 1;
                    }
                }
            },
            Event::End(_) => {
                return p + 1;
            },
            _ => {
                p = render_inline_leaf(events, p, ctx, out);
                proof {
                    if hyp {
                        k = k + 1;
                    }
                }
            },
        }
    }
    proof {
        if hyp {
            assert(s.take(k) =~= s) by {
                if k < s.len() {
                    lemma_inlines_at(s, k);
                    lemma_inline_shape(s[k]);
                }
            }
        }
    }
    p
}

/// Render the inline events in `lo..hi` (closers there are skipped).
fn render_inline_range(
    events: &[Event],
    lo: usize,
    hi: usize,
    ctx: &mut RenderCtx,
    out: &mut Vec<char>,
    Ghost(s): Ghost<Seq<Inline>>,
)
    requires
        hi <= events@.len(),
    ensures
        inline_kept(*old(ctx), *final(ctx)),
        at(event_views(events@), lo as int, inlines_events(s)) && hi == lo + inlines_events(s).len()
            ==> final(out)@ == old(out)@ + crate::ast::list_inline_html(s),
    decreases events@.len() + 1 - lo, 2int,
{
    let ghost ev = event_views(events@);
    let ghost hyp = at(ev, lo as int, inlines_events(s)) && hi == lo + inlines_events(s).len();
    let ghost mut k: int = 0;
    proof {
        if hyp {
            assert(s.take(0) =~= Seq::<Inline>::empty());
        }
    }
    if lo >= hi {
        proof {
            if hyp {
                lemma_inlines_len(s);
                assert(s =~= Seq::<Inline>::empty());
            }
        }
        return ;
    }
    let mut q: usize = lo;
    while q < hi
        invariant
            hi <= events@.len(),
            lo <= q <= events@.len(),
            inline_kept(*old(ctx), *ctx),
            ev == event_views(events@),
            hyp ==> at(ev, lo as int, inlines_events(s)) && hi == lo + inlines_events(s).len(),
            hyp ==> 0 <= k <= s.len() && q == lo + inlines_events(s.take(k)).len()
                && out@ == old(out)@ + crate::ast::list_inline_html(s.take(k)),
        decreases events@.len() - q,
    {
        proof {
            if hyp {
                assert(ev[q as int] == events@[q as int]@);
                if k < s.len() {
                    lemma_inlines_at(s, k);
                    lemma_inline_shape(s[k]);
                    assert(inlines_events(s) =~= inlines_events(s.take(k)) + (inline_events(s[k]) + inlines_events(s.skip(k + 1))));
                    lemma_at_split(ev, lo as int, inlines_events(s.take(k)), inline_events(s[k]) + inlines_events(s.skip(k + 1)));
                    lemma_at_split(ev, q as int, inline_events(s[k]), inlines_events(s.skip(k + 1)));
                } else {
                    assert(s.take(k) =~= s);
                }
            }
        }
        match &events[q] {
            Event::Start(_) => {
                let ghost sk = if 0 <= k < s.len() { s[k] } else { Inline::SoftBreak };
                q = render_inline_at(events, q, ctx, out, Ghost(sk));
                proof {
                    if hyp {
                        k = k + 1;
                    }
                }
            },
            Event::End(_) => {
                q += 1;
            },
            _ => {
                q = render_inline_leaf(events, q, ctx, out);
                proof {
                    if hyp {
                        k = k + 1;
                    }
                }
            },
        }
    }
    proof {
        if hyp {
            if k < s.len() {
                lemma_inlines_at(s, k);
                lemma_inline_shape(s[k]);
                assert(s.take(k) + s.skip(k) =~= s);
                lemma_inlines_append(s.take(k), s.skip(k));
                assert(s.skip(k) =~= seq![s[k]] + s.skip(k + 1));
                lemma_inlines_append(seq![s[k]], s.skip(k + 1));
                reveal_with_fuel(inlines_events, 2);
            }
            assert(s.take(k) =~= s);
        }
    }
}

// ---------------------------------------------------------------------------
// Block walk
// ---------------------------------------------------------------------------

/// Render blocks until the slice ends or a closer of an outer range is met
/// (that closer is consumed).
#[verifier::spinoff_prover]
#[verifier::rlimit(60)]
fn render_blocks(
    events: &[Event],
    pos: usize,
    ctx: &mut RenderCtx,
    out: &mut Vec<char>,
    hl: Option<&dyn SyntaxHighlighter>,
    Ghost(reg): Ghost<Region>,
) -> (np: usize)
    requires
        events@.len() < usize::MAX,
        pos <= events@.len(),
    ensures
        pos <= np <= events@.len() + 1,
        ctx_kept(*old(ctx), *final(ctx)),
        hl_stated(hl) && region_hyp(event_views(events@), pos as int, reg, *old(ctx)) ==> {
            let re = units_events(reg_units(reg));
            &&& np == (if pos + re.len() == events@.len() {
                pos + re.len()
            } else {
                pos + re.len() + 1
            })
            &&& final(out)@ == old(out)@ + reg_html(reg, reg_units(reg).len() as int, *old(ctx), hl)
            &&& reg_state(reg, reg_units(reg).len() as int, *old(ctx), *final(ctx))
        },
    decreases events@.len() + 1 - pos, 4int,
{
    let ghost ev = event_views(events@);
    let ghost c0 = *ctx;
    let ghost us = reg_units(reg);
    let ghost re = units_events(us);
    let ghost hyp = hl_stated(hl) && region_hyp(ev, pos as int, reg, c0);
    let ghost mut k: int = 0;
    proof {
        if hyp {
            assert(us.take(0) =~= Seq::<Unit>::empty());
            match reg {
                Region::Blocks(bs) => {
                    assert(bs.take(0) =~= Seq::<Block>::empty());
                },
                Region::Items(items) => {
                    assert(items.take(0) =~= Seq::<ListItem>::empty());
                },
                Region::Cells(cells) => {
                    assert(cells.take(0) =~= Seq::<TableCell>::empty());
                },
                _ => {},
            }
            assert(reg_html(reg, 0, c0, hl) =~= Seq::<char>::empty());
            assert(c0.tables@.drop_last() =~= c0.tables@.drop_last());
        }
    }
    let mut p: usize = pos;
    while p < events.len()
        invariant
            events@.len() < usize::MAX,
            pos <= p <= events@.len() + 1,
            ctx_kept(*old(ctx), *ctx),
            c0 == *old(ctx),
            ev == event_views(events@),
            us == reg_units(reg),
            re == units_events(us),
            hyp == (hl_stated(hl) && region_hyp(ev, pos as int, reg, c0)),
            hyp ==> 0 <= k <= us.len() && p == pos + units_events(us.take(k)).len() && out@
                == old(out)@ + reg_html(reg, k, c0, hl) && reg_state(reg, k, c0, *ctx),
        decreases events@.len() + 1 - p,
    {
        proof {
            if hyp {
                assert(ev[p as int] == events@[p as int]@);
                if k < us.len() {
                    lemma_units_at(us, k);
                    lemma_at_split(ev, pos as int, units_events(us.take(k)), unit_events(us[k]) + units_events(us.skip(k + 1)));
                    lemma_at_split(ev, p as int, unit_events(us[k]), units_events(us.skip(k + 1)));
                    lemma_unit_shape(us[k]);
                } else {
                    assert(us.take(k) =~= us);
                }
            }
        }
        let ghost uk: Unit = if 0 <= k < us.len() {
            us[k]
        } else {
            arbitrary()
        };
        let ghost cb = *ctx;
        match &events[p] {
            Event::Start(_) => {
                proof {
                    if hyp {
                        lemma_reg_step(reg, k, c0, cb, cb, hl);
                    }
                }
                p = render_block_at(events, p, ctx, out, hl, Ghost(uk));
                proof {
                    if hyp {
                        lemma_reg_step(reg, k, c0, cb, *ctx, hl);
                        k = k + 1;
                    }
                }
            },
            Event::End(_) => {
                return p + 1;
            },
            // Inline-level events at block level render as inline content
            // (a thematic break is one).
            _ => {
                p = render_inline_leaf(events, p, ctx, out);
                proof {
                    if hyp {
                        lemma_reg_step(reg, k, c0, cb, *ctx, hl);
                        k = k + 1;
                    }
                }
            },
        }
    }
    proof {
        if hyp {
            if k < us.len() {
                lemma_units_at(us, k);
                lemma_unit_shape(us[k]);
            }
            assert(us.take(k) =~= us);
        }
    }
    p
}

/// Render the block whose opener sits at `lo` (its closer at `hi`).
fn render_block_range(
    events: &[Event],
    lo: usize,
    hi: usize,
    ctx: &mut RenderCtx,
    out: &mut Vec<char>,
    hl: Option<&dyn SyntaxHighlighter>,
    Ghost(u): Ghost<Unit>,
)
    requires
        events@.len() < usize::MAX,
        lo < events@.len(),
        events@[lo as int] is Start || events@[lo as int] is Rule,
    ensures
        ctx_kept(*old(ctx), *final(ctx)),
        hl_stated(hl) && unit_pre(u, *old(ctx)) && at(event_views(events@), lo as int, unit_events(u))
            ==> final(out)@ == old(out)@ + unit_html(u, *old(ctx), hl) && unit_post(
            u,
            *old(ctx),
            *final(ctx),
        ),
        (u matches Unit::Block(b) && b is ThematicBreak) && at(event_views(events@), lo as int, unit_events(u))
            ==> final(out)@ == old(out)@ + crate::ast::block_html(u->Block_0) && *final(ctx) == *old(ctx),
    decreases events@.len() + 1 - lo, 4int,
{
    if is_rule(events, lo) {
        push_str(out, "<hr />\n");
        proof {
            lemma_unit_shape(u);
            reveal_strlit("<hr />\n");
            assert(event_views(events@)[lo as int] == events@[lo as int]@);
            if (u matches Unit::Block(b) && b is ThematicBreak) && at(event_views(events@), lo as int, unit_events(u)) {
            } else if unit_pre(u, *old(ctx)) && at(event_views(events@), lo as int, unit_events(u)) {
                assert(unit_events(u)[0] == event_views(events@)[lo as int]);
            }
        }
    } else {
        let _ = render_block_at(events, lo, ctx, out, hl, Ghost(u));
        proof {
            lemma_unit_shape(u);
            assert(event_views(events@)[lo as int] == events@[lo as int]@);
        }
    }
}

/// What a call at an opener owes on the events of unit `u`: the cursor
/// ends past them, the output grows by the unit's HTML, and the state is
/// left as the unit leaves it.
spec fn unit_done(
    u: Unit,
    ev: Seq<EventV>,
    pos: int,
    np: int,
    a: RenderCtx,
    b: RenderCtx,
    o: Seq<char>,
    o2: Seq<char>,
    hl: Option<&dyn SyntaxHighlighter>,
) -> bool {
    hl_stated(hl) && unit_pre(u, a) && at(ev, pos, unit_events(u)) ==> np == pos + unit_events(u).len()
        && o2 == o + unit_html(u, a, hl) && unit_post(u, a, b)
}

/// Render the block opened at `pos`; the cursor ends past its closer.
fn render_block_at(
    events: &[Event],
    pos: usize,
    ctx: &mut RenderCtx,
    out: &mut Vec<char>,
    hl: Option<&dyn SyntaxHighlighter>,
    Ghost(u): Ghost<Unit>,
) -> (np: usize)
    requires
        events@.len() < usize::MAX,
        pos < events@.len(),
        events@[pos as int] is Start,
    ensures
        pos < np <= events@.len() + 1,
        ctx_kept(*old(ctx), *final(ctx)),
        unit_done(u, event_views(events@), pos as int, np as int, *old(ctx), *final(ctx), old(out)@, final(out)@, hl),
    decreases events@.len() + 1 - pos, 3int,
{
    let ghost ev = event_views(events@);
    let ghost c0 = *ctx;
    let ghost o = out@;
    let tag = match &events[pos] {
        Event::Start(t) => t,
        _ => {
            return pos + 1;
        },
    };
    proof {
        if unit_pre(u, c0) && at(ev, pos as int, unit_events(u)) {
            lemma_unit_shape(u);
            assert(ev[pos as int] == events@[pos as int]@);
            lemma_at_split(ev, pos as int, unit_events(u), Seq::empty());
            assert(unit_events(u) + Seq::<EventV>::empty() =~= unit_events(u));
            assert(ev[pos as int] == unit_events(u)[0]);
        }
    }
    match tag {
        Tag::Paragraph => render_paragraph(events, pos, ctx, out, hl, Ghost(u)),
        Tag::Heading { level } => render_heading(events, pos, *level, ctx, out, hl, Ghost(u)),
        Tag::BlockQuote => render_quote(events, pos, ctx, out, hl, Ghost(u)),
        Tag::CodeBlock { info } => render_code(events, pos, info, ctx, out, hl, Ghost(u)),
        Tag::HtmlBlock => render_html_block(events, pos, ctx, out, hl, Ghost(u)),
        Tag::List { ordered, start, tight } => render_list(events, pos, *ordered, *start, *tight, ctx, out, hl, Ghost(u)),
        Tag::Item => {
            let ghost it: ListItem = match u {
                Unit::Item(x) => x,
                _ => arbitrary(),
            };
            let np = render_item(events, pos, ctx, out, hl, Ghost(it));
            proof {
                if unit_pre(u, c0) && at(ev, pos as int, unit_events(u)) {
                    assert(u == Unit::Item(it));
                }
            }
            np
        },
        Tag::Table { alignments } => render_table(events, pos, alignments, ctx, out, hl, Ghost(u)),
        Tag::TableHead => render_table_head(events, pos, ctx, out, hl, Ghost(u)),
        Tag::TableRow => render_table_row(events, pos, ctx, out, hl, Ghost(u)),
        Tag::TableCell => render_table_cell(events, pos, ctx, out, hl, Ghost(u)),
        Tag::FootnoteDefinition { label, number } => {
            let end = find_end(events, pos, Ghost(Seq::empty()));
            ctx.defs.push(HoistedDef { label: label.clone(), number: *number, lo: pos + 1, hi: end });
            end + 1
        },
        Tag::DefinitionList { tight } => {
            push_str(out, "<dl>\n");
            ctx.dl_tight.push(*tight);
            let np = render_blocks(events, pos + 1, ctx, out, hl, Ghost(arbitrary()));
            ctx.dl_tight.pop();
            assert(ctx.dl_tight@ =~= old(ctx).dl_tight@);
            push_str(out, "</dl>\n");
            np
        },
        Tag::DefinitionListItem => render_blocks(events, pos + 1, ctx, out, hl, Ghost(arbitrary())),
        Tag::DefinitionTerm => {
            push_str(out, "<dt>");
            let np = render_inlines_until(events, pos + 1, ctx, out, TagEnd::DefinitionTerm, Ghost(Seq::empty()));
            push_str(out, "</dt>\n");
            np
        },
        Tag::DefinitionDescription => render_description(events, pos, ctx, out, hl),
        // Inline-level openers at block level cannot come from a document;
        // they render through the inline path.
        Tag::Emphasis | Tag::Strong | Tag::Strikethrough | Tag::Link { .. } | Tag::Image { .. } => {
            render_inline_at(events, pos, ctx, out, Ghost(Inline::SoftBreak))
        },
    }
}

/// A paragraph: wrapped in `<p>`, or bare inside a tight list item.
fn render_paragraph(
    events: &[Event],
    pos: usize,
    ctx: &mut RenderCtx,
    out: &mut Vec<char>,
    hl: Option<&dyn SyntaxHighlighter>,
    Ghost(u): Ghost<Unit>,
) -> (np: usize)
    requires
        events@.len() < usize::MAX,
        pos < events@.len(),
        events@[pos as int] matches Event::Start(Tag::Paragraph),
    ensures
        pos < np <= events@.len() + 1,
        ctx_kept(*old(ctx), *final(ctx)),
        unit_done(u, event_views(events@), pos as int, np as int, *old(ctx), *final(ctx), old(out)@, final(out)@, hl),
    decreases events@.len() + 1 - pos, 2int,
{
    let ghost ev = event_views(events@);
    let ghost c0 = *ctx;
    let ghost o = out@;
    let ghost hyp = hl_stated(hl) && unit_pre(u, c0) && at(ev, pos as int, unit_events(u));
    proof {
        if hyp {
            lemma_unit_shape(u);
            assert(ev[pos as int] == events@[pos as int]@);
            lemma_at_split(ev, pos as int, unit_events(u), Seq::empty());
            assert(unit_events(u) + Seq::<EventV>::empty() =~= unit_events(u));
            assert(ev[pos as int] == unit_events(u)[0]);
        }
    }
    let ghost inl: Seq<Inline> = match u {
        Unit::Block(Block::Paragraph(v)) => v@,
        _ => Seq::empty(),
    };
    proof {
        if hyp {
            assert(unit_events(u) =~= wrap(EventV::Start(TagV::Paragraph), inlines_events(inl), EventV::End(TagEnd::Paragraph)));
            lemma_at_wrap(ev, pos as int, EventV::Start(TagV::Paragraph), inlines_events(inl), EventV::End(TagEnd::Paragraph));
        }
    }
    push_str(out, "<p>");
    let np = render_inlines_until(events, pos + 1, ctx, out, TagEnd::Paragraph, Ghost(inl));
    push_str(out, "</p>\n");
    proof {
        if hyp {
            assert(out@ =~= o + unit_html(u, c0, hl));
        }
    }
    np
}

/// A heading `<hN>`.
fn render_heading(
    events: &[Event],
    pos: usize,
    level: u8,
    ctx: &mut RenderCtx,
    out: &mut Vec<char>,
    hl: Option<&dyn SyntaxHighlighter>,
    Ghost(u): Ghost<Unit>,
) -> (np: usize)
    requires
        events@.len() < usize::MAX,
        pos < events@.len(),
        events@[pos as int] == Event::Start(Tag::Heading { level }),
    ensures
        pos < np <= events@.len() + 1,
        ctx_kept(*old(ctx), *final(ctx)),
        unit_done(u, event_views(events@), pos as int, np as int, *old(ctx), *final(ctx), old(out)@, final(out)@, hl),
    decreases events@.len() + 1 - pos, 2int,
{
    let ghost ev = event_views(events@);
    let ghost c0 = *ctx;
    let ghost o = out@;
    let ghost hyp = hl_stated(hl) && unit_pre(u, c0) && at(ev, pos as int, unit_events(u));
    proof {
        if hyp {
            lemma_unit_shape(u);
            assert(ev[pos as int] == events@[pos as int]@);
            lemma_at_split(ev, pos as int, unit_events(u), Seq::empty());
            assert(unit_events(u) + Seq::<EventV>::empty() =~= unit_events(u));
            assert(ev[pos as int] == unit_events(u)[0]);
        }
    }
    let ghost inl: Seq<Inline> = match u {
        Unit::Block(Block::Heading(h)) => h.content@,
        _ => Seq::empty(),
    };
    proof {
        if hyp {
            assert(unit_events(u) =~= wrap(ev[pos as int], inlines_events(inl), EventV::End(TagEnd::Heading)));
            lemma_at_wrap(ev, pos as int, ev[pos as int], inlines_events(inl), EventV::End(TagEnd::Heading));
        }
    }
    push_str(out, "<h");
    push_decimal(out, level as u32);
    push_str(out, ">");
    let np = render_inlines_until(events, pos + 1, ctx, out, TagEnd::Heading, Ghost(inl));
    push_str(out, "</h");
    push_decimal(out, level as u32);
    push_str(out, ">\n");
    proof {
        if hyp {
            assert(out@ =~= o + unit_html(u, c0, hl));
        }
    }
    np
}

/// A block quote.
fn render_quote(
    events: &[Event],
    pos: usize,
    ctx: &mut RenderCtx,
    out: &mut Vec<char>,
    hl: Option<&dyn SyntaxHighlighter>,
    Ghost(u): Ghost<Unit>,
) -> (np: usize)
    requires
        events@.len() < usize::MAX,
        pos < events@.len(),
        events@[pos as int] matches Event::Start(Tag::BlockQuote),
    ensures
        pos < np <= events@.len() + 1,
        ctx_kept(*old(ctx), *final(ctx)),
        unit_done(u, event_views(events@), pos as int, np as int, *old(ctx), *final(ctx), old(out)@, final(out)@, hl),
    decreases events@.len() + 1 - pos, 2int,
{
    let ghost ev = event_views(events@);
    let ghost c0 = *ctx;
    let ghost o = out@;
    let ghost hyp = hl_stated(hl) && unit_pre(u, c0) && at(ev, pos as int, unit_events(u));
    proof {
        if hyp {
            lemma_unit_shape(u);
            assert(ev[pos as int] == events@[pos as int]@);
            lemma_at_split(ev, pos as int, unit_events(u), Seq::empty());
            assert(unit_events(u) + Seq::<EventV>::empty() =~= unit_events(u));
            assert(ev[pos as int] == unit_events(u)[0]);
        }
    }
    let ghost children: Seq<Block> = match u {
        Unit::Block(Block::BlockQuote(ch)) => ch@,
        _ => Seq::empty(),
    };
    proof {
        if hyp {
            lemma_blocks_units(children);
            assert(unit_events(u) =~= wrap(ev[pos as int], blocks_events(children), EventV::End(TagEnd::BlockQuote)));
            lemma_at_wrap(ev, pos as int, ev[pos as int], blocks_events(children), EventV::End(TagEnd::BlockQuote));
            assert(reg_units(Region::Blocks(children)).len() == children.len());
            assert(children.take(children.len() as int) =~= children);
        }
    }
    push_str(out, "<blockquote>\n");
    let np = render_blocks(events, pos + 1, ctx, out, hl, Ghost(Region::Blocks(children)));
    push_str(out, "</blockquote>\n");
    proof {
        if hyp {
            assert(out@ =~= o + unit_html(u, c0, hl));
        }
    }
    np
}

/// A code block: `<pre><code>` with the fence language as class, its
/// text escaped (or handed to the highlighter).
#[verifier::spinoff_prover]
#[verifier::rlimit(60)]
fn render_code(
    events: &[Event],
    pos: usize,
    info: &String,
    ctx: &mut RenderCtx,
    out: &mut Vec<char>,
    hl: Option<&dyn SyntaxHighlighter>,
    Ghost(u): Ghost<Unit>,
) -> (np: usize)
    requires
        events@.len() < usize::MAX,
        pos < events@.len(),
        events@[pos as int] == Event::Start(Tag::CodeBlock { info: *info }),
    ensures
        pos < np <= events@.len() + 1,
        ctx_kept(*old(ctx), *final(ctx)),
        unit_done(u, event_views(events@), pos as int, np as int, *old(ctx), *final(ctx), old(out)@, final(out)@, hl),
    decreases events@.len() + 1 - pos, 2int,
{
    let ghost ev = event_views(events@);
    let ghost c0 = *ctx;
    let ghost o = out@;
    let ghost hyp = hl_stated(hl) && unit_pre(u, c0) && at(ev, pos as int, unit_events(u));
    proof {
        if hyp {
            lemma_unit_shape(u);
            assert(ev[pos as int] == events@[pos as int]@);
            lemma_at_split(ev, pos as int, unit_events(u), Seq::empty());
            assert(unit_events(u) + Seq::<EventV>::empty() =~= unit_events(u));
            assert(ev[pos as int] == unit_events(u)[0]);
        }
    }
    let ghost lines: Seq<String> = match u {
        Unit::Block(Block::CodeBlock(code)) => code.lines@,
        _ => Seq::empty(),
    };
    let ghost mid: Seq<EventV> = if lines.len() > 0 {
        seq![EventV::Text(crate::stream::code_text(lines))]
    } else {
        Seq::empty()
    };
    proof {
        if hyp {
            assert(unit_events(u) =~= wrap(ev[pos as int], mid, EventV::End(TagEnd::CodeBlock)));
            lemma_at_wrap(ev, pos as int, ev[pos as int], mid, EventV::End(TagEnd::CodeBlock));
            assert(ev[pos + 1] == events@[pos + 1]@);
            lemma_code_text_html(lines);
        }
    }
    let mut p: usize = pos + 1;
    push_str(out, "<pre><code");
    let lang = language_from_info(info.as_str());
    assert(lang@ == crate::highlight::spec_language(info@));
    if string_nonempty(&lang) {
        push_str(out, " class=\"language-");
        push_escaped_string(out, &lang);
        push_str(out, "\"");
    }
    out.push('>');
    let ghost o2 = out@;
    proof {
        if hyp {
            reveal_strlit(">");
            assert(o2 =~= o + "<pre><code"@ + crate::ast::fence_class(info@) + ">"@);
        }
    }
    let text = if p < events.len() {
        match &events[p] {
            Event::Text(t) => Some(t),
            _ => None,
        }
    } else {
        None
    };
    let ghost body = match hl {
        Some(h) => match h.highlighted(crate::highlight::spec_language(info@), crate::stream::code_text(lines)) {
            Some(x) => x,
            None => crate::ast::code_lines_html(lines),
        },
        None => crate::ast::code_lines_html(lines),
    };
    proof {
        if hyp {
            if lines.len() > 0 {
                lemma_at_split(ev, pos + 1, mid, seq![EventV::End(TagEnd::CodeBlock)]);
                assert(ev[pos + 1] == mid[0]);
            } else {
                assert(ev[pos + 1] == EventV::End(TagEnd::CodeBlock));
                assert(crate::highlight::views(lines) =~= Seq::<Seq<char>>::empty());
                assert(crate::stream::code_text(lines) =~= Seq::<char>::empty());
            }
        }
    }
    match text {
        Some(t) => {
            assert(events@[p as int]@ == EventV::Text(t@));
            proof {
                if hyp {
                    assert(lines.len() > 0);
                    assert(t@ == crate::stream::code_text(lines));
                }
            }
            match hl {
                Some(h) => {
                    let mut hs = String::new();
                    h.write_highlighted(&mut hs, lang.as_str(), t.as_str());
                    assert(h.highlighted(lang@, t@) matches Some(x) ==> hs@ == x);
                    push_string(out, &hs);
                    assert(hyp ==> out@ =~= o2 + body);
                },
                None => {
                    push_escaped_string(out, t);
                    assert(hyp ==> out@ =~= o2 + body);
                },
            }
            p = p + 1;
        },
        None => {
            // An empty block: a highlighter sees empty content.
            let empty = String::new();
            proof {
                if hyp {
                    assert(lines.len() == 0);
                    assert(empty@ =~= Seq::<char>::empty());
                    assert(spec_escape_html(Seq::<char>::empty()) =~= Seq::<char>::empty());
                }
            }
            match hl {
                Some(h) => {
                    let mut hs = String::new();
                    h.write_highlighted(&mut hs, lang.as_str(), empty.as_str());
                    assert(h.highlighted(lang@, empty@) matches Some(x) ==> hs@ == x);
                    push_string(out, &hs);
                    assert(hyp ==> out@ =~= o2 + body);
                },
                None => {
                    assert(hyp ==> out@ =~= o2 + body);
                },
            }
        },
    }
    let ghost o3 = out@;
    proof {
        if hyp {
            if lines.len() > 0 {
                lemma_at_split(ev, pos + 1, mid, seq![EventV::End(TagEnd::CodeBlock)]);
                assert(ev[pos + 1] == mid[0]);
            } else {
                assert(ev[pos + 1] == EventV::End(TagEnd::CodeBlock));
                assert(crate::highlight::views(lines) =~= Seq::<Seq<char>>::empty());
                assert(crate::stream::code_text(lines) =~= Seq::<char>::empty());
            }
            assert(lang@ == crate::highlight::spec_language(info@));
            assert(o3 =~= o2 + body);
        }
    }
    // The closer.
    push_str(out, "</code></pre>\n");
    proof {
        if hyp {
            match u {
                Unit::Block(Block::CodeBlock(code)) => {
                    assert(info@ == code.info@);
                    assert(lines == code.lines@);
                    match code.kind {
                        crate::ast::CodeBlockKind::Indented => {
                            reveal_strlit("<pre><code");
                            reveal_strlit("<pre><code>");
                            reveal_strlit(">");
                            assert(crate::ast::fence_class(info@) =~= Seq::<char>::empty());
                            assert("<pre><code"@ + Seq::<char>::empty() + ">"@ =~= "<pre><code>"@);
                        },
                        _ => {},
                    }
                },
                _ => {},
            }
            assert(out@ =~= o + unit_html(u, c0, hl));
        }
    }
    p + 1
}

/// A verbatim HTML block: its lines, each followed by a line feed.
fn render_html_block(
    events: &[Event],
    pos: usize,
    ctx: &mut RenderCtx,
    out: &mut Vec<char>,
    hl: Option<&dyn SyntaxHighlighter>,
    Ghost(u): Ghost<Unit>,
) -> (np: usize)
    requires
        events@.len() < usize::MAX,
        pos < events@.len(),
        events@[pos as int] matches Event::Start(Tag::HtmlBlock),
    ensures
        pos < np <= events@.len() + 1,
        ctx_kept(*old(ctx), *final(ctx)),
        unit_done(u, event_views(events@), pos as int, np as int, *old(ctx), *final(ctx), old(out)@, final(out)@, hl),
    decreases events@.len() + 1 - pos, 2int,
{
    let ghost ev = event_views(events@);
    let ghost c0 = *ctx;
    let ghost o = out@;
    let ghost hyp = hl_stated(hl) && unit_pre(u, c0) && at(ev, pos as int, unit_events(u));
    proof {
        if hyp {
            lemma_unit_shape(u);
            assert(ev[pos as int] == events@[pos as int]@);
            lemma_at_split(ev, pos as int, unit_events(u), Seq::empty());
            assert(unit_events(u) + Seq::<EventV>::empty() =~= unit_events(u));
            assert(ev[pos as int] == unit_events(u)[0]);
        }
    }
    let ghost lines: Seq<String> = match u {
        Unit::Block(Block::HtmlBlock(l)) => l@,
        _ => Seq::empty(),
    };
    let ghost mut j: int = 0;
    proof {
        if hyp {
            assert(unit_events(u) =~= wrap(ev[pos as int], crate::stream::html_line_events(lines), EventV::End(TagEnd::HtmlBlock)));
            lemma_at_wrap(ev, pos as int, ev[pos as int], crate::stream::html_line_events(lines), EventV::End(TagEnd::HtmlBlock));
            lemma_html_lines(lines);
            assert(lines.take(0) =~= Seq::<String>::empty());
        }
    }
    let mut p: usize = pos + 1;
    while p < events.len()
        invariant_except_break
            pos < p <= events@.len(),
            ev == event_views(events@),
            hyp ==> at(ev, pos + 1, crate::stream::html_line_events(lines) + seq![EventV::End(TagEnd::HtmlBlock)]),
            hyp ==> crate::stream::html_line_events(lines).len() == lines.len(),
            hyp ==> forall|jj: int| 0 <= jj < lines.len() ==> #[trigger] crate::stream::html_line_events(lines)[jj] == EventV::Html(lines[jj]@),
            hyp ==> 0 <= j <= lines.len() && p == pos + 1 + j && out@ == o + crate::ast::raw_lines_html(lines.take(j)),
        ensures
            pos < p <= events@.len(),
            hyp ==> p == pos + lines.len() + 2 && out@ == o + crate::ast::raw_lines_html(lines),
        decreases events@.len() - p,
    {
        proof {
            if hyp {
                assert(ev[p as int] == events@[p as int]@);
                lemma_at_split(ev, pos + 1, crate::stream::html_line_events(lines), seq![EventV::End(TagEnd::HtmlBlock)]);
                if j < lines.len() {
                    assert(ev[pos + 1 + j] == crate::stream::html_line_events(lines)[j]);
                }
            }
        }
        match &events[p] {
            Event::End(TagEnd::HtmlBlock) => {
                p += 1;
                proof {
                    if hyp {
                        assert(lines.take(j) =~= lines);
                    }
                }
                break;
            },
            Event::Html(line) => {
                push_string(out, line);
                out.push('\n');
                p += 1;
                proof {
                    if hyp {
                        reveal_strlit("\n");
                        assert(lines.take(j + 1).drop_last() =~= lines.take(j));
                        assert(lines.take(j + 1).last() == lines[j]);
                        j = j + 1;
                    }
                }
            },
            _ => {
                p += 1;
            },
        }
    }
    proof {
        if hyp {
            assert(out@ =~= o + unit_html(u, c0, hl));
        }
    }
    p
}

/// A list: `<ol>` (with `start` unless 1) or `<ul>` around its items.
fn render_list(
    events: &[Event],
    pos: usize,
    ordered: bool,
    start: u32,
    tight: bool,
    ctx: &mut RenderCtx,
    out: &mut Vec<char>,
    hl: Option<&dyn SyntaxHighlighter>,
    Ghost(u): Ghost<Unit>,
) -> (np: usize)
    requires
        events@.len() < usize::MAX,
        pos < events@.len(),
        events@[pos as int] == Event::Start(Tag::List { ordered, start, tight }),
    ensures
        pos < np <= events@.len() + 1,
        ctx_kept(*old(ctx), *final(ctx)),
        unit_done(u, event_views(events@), pos as int, np as int, *old(ctx), *final(ctx), old(out)@, final(out)@, hl),
    decreases events@.len() + 1 - pos, 2int,
{
    let ghost ev = event_views(events@);
    let ghost c0 = *ctx;
    let ghost o = out@;
    let ghost hyp = hl_stated(hl) && unit_pre(u, c0) && at(ev, pos as int, unit_events(u));
    proof {
        if hyp {
            lemma_unit_shape(u);
            assert(ev[pos as int] == events@[pos as int]@);
            lemma_at_split(ev, pos as int, unit_events(u), Seq::empty());
            assert(unit_events(u) + Seq::<EventV>::empty() =~= unit_events(u));
            assert(ev[pos as int] == unit_events(u)[0]);
        }
    }
    let ghost items: Seq<ListItem> = match u {
        Unit::Block(Block::List(l)) => l.items@,
        _ => Seq::empty(),
    };
    proof {
        if hyp {
            lemma_items_units(items);
            assert(unit_events(u) =~= wrap(ev[pos as int], crate::stream::items_events(items), EventV::End(TagEnd::List)));
            lemma_at_wrap(ev, pos as int, ev[pos as int], crate::stream::items_events(items), EventV::End(TagEnd::List));
            assert(items.take(items.len() as int) =~= items);
        }
    }
    if ordered {
        if start != 1 {
            push_str(out, "<ol start=\"");
            push_decimal(out, start);
            push_str(out, "\">\n");
        } else {
            push_str(out, "<ol>\n");
        }
    } else {
        push_str(out, "<ul>\n");
    }
    let ghost o2 = out@;
    ctx.lists.push(tight);
    let ghost c1 = *ctx;
    let np = render_blocks(events, pos + 1, ctx, out, hl, Ghost(Region::Items(items)));
    ctx.lists.pop();
    assert(ctx.lists@ =~= old(ctx).lists@);
    if ordered {
        push_str(out, "</ol>\n");
    } else {
        push_str(out, "</ul>\n");
    }
    proof {
        if hyp {
            reveal_strlit("<ol start=\"");
            reveal_strlit("\">\n");
            assert(out@ =~= o + unit_html(u, c0, hl));
        }
    }
    np
}

/// A table: head, then body rows inside `<tbody>` when there are any.
fn render_table(
    events: &[Event],
    pos: usize,
    alignments: &Vec<Alignment>,
    ctx: &mut RenderCtx,
    out: &mut Vec<char>,
    hl: Option<&dyn SyntaxHighlighter>,
    Ghost(u): Ghost<Unit>,
) -> (np: usize)
    requires
        events@.len() < usize::MAX,
        pos < events@.len(),
        events@[pos as int] == Event::Start(Tag::Table { alignments: *alignments }),
    ensures
        pos < np <= events@.len() + 1,
        ctx_kept(*old(ctx), *final(ctx)),
        unit_done(u, event_views(events@), pos as int, np as int, *old(ctx), *final(ctx), old(out)@, final(out)@, hl),
    decreases events@.len() + 1 - pos, 2int,
{
    let ghost ev = event_views(events@);
    let ghost c0 = *ctx;
    let ghost o = out@;
    let ghost hyp = hl_stated(hl) && unit_pre(u, c0) && at(ev, pos as int, unit_events(u));
    proof {
        if hyp {
            lemma_unit_shape(u);
            assert(ev[pos as int] == events@[pos as int]@);
            lemma_at_split(ev, pos as int, unit_events(u), Seq::empty());
            assert(unit_events(u) + Seq::<EventV>::empty() =~= unit_events(u));
            assert(ev[pos as int] == unit_events(u)[0]);
        }
    }
    let ghost t: Table = match u {
        Unit::Block(Block::Table(x)) => *x,
        _ => arbitrary(),
    };
    let ghost mid = head_events(t.header@) + crate::stream::rows_events(t.rows@);
    proof {
        if hyp {
            lemma_table_units(t.header@, t.rows@);
            assert(unit_events(u) =~= wrap(ev[pos as int], mid, EventV::End(TagEnd::Table)));
            lemma_at_wrap(ev, pos as int, ev[pos as int], mid, EventV::End(TagEnd::Table));
            assert(t.rows@.take(t.rows@.len() as int) =~= t.rows@);
        }
    }
    push_str(out, "<table>\n");
    let ghost o2 = out@;
    ctx.tables.push(
        TableFrame { alignments: clone_aligns(alignments), col: 0, in_head: false, had_rows: false },
    );
    let ghost c1 = *ctx;
    proof {
        assert(c1.tables@.drop_last() =~= c0.tables@);
    }
    let np = render_blocks(events, pos + 1, ctx, out, hl, Ghost(Region::Table(t.header@, t.rows@)));
    let ghost c2 = *ctx;
    let frame = ctx.tables.pop();
    let had_rows = match frame {
        Some(f) => f.had_rows,
        None => false,
    };
    if had_rows {
        push_str(out, "</tbody>\n");
    }
    push_str(out, "</table>\n");
    proof {
        if hyp {
            assert(ctx.tables@ =~= c2.tables@.drop_last());
            reveal_strlit("<table>\n");
            reveal_strlit("<thead>\n<tr>\n");
            reveal_strlit("<table>\n<thead>\n<tr>\n");
            assert(out@ =~= o + unit_html(u, c0, hl));
        }
    }
    np
}

/// The table head row (`<th>` cells).
fn render_table_head(
    events: &[Event],
    pos: usize,
    ctx: &mut RenderCtx,
    out: &mut Vec<char>,
    hl: Option<&dyn SyntaxHighlighter>,
    Ghost(u): Ghost<Unit>,
) -> (np: usize)
    requires
        events@.len() < usize::MAX,
        pos < events@.len(),
        events@[pos as int] matches Event::Start(Tag::TableHead),
    ensures
        pos < np <= events@.len() + 1,
        ctx_kept(*old(ctx), *final(ctx)),
        unit_done(u, event_views(events@), pos as int, np as int, *old(ctx), *final(ctx), old(out)@, final(out)@, hl),
    decreases events@.len() + 1 - pos, 2int,
{
    let ghost ev = event_views(events@);
    let ghost c0 = *ctx;
    let ghost o = out@;
    let ghost hyp = hl_stated(hl) && unit_pre(u, c0) && at(ev, pos as int, unit_events(u));
    proof {
        if hyp {
            lemma_unit_shape(u);
            assert(ev[pos as int] == events@[pos as int]@);
            lemma_at_split(ev, pos as int, unit_events(u), Seq::empty());
            assert(unit_events(u) + Seq::<EventV>::empty() =~= unit_events(u));
            assert(ev[pos as int] == unit_events(u)[0]);
        }
    }
    let ghost h: Seq<TableCell> = match u {
        Unit::Head(x) => x,
        _ => Seq::empty(),
    };
    proof {
        if hyp {
            lemma_cells_units(h);
            lemma_cells_len(h);
            lemma_at_wrap(ev, pos as int, ev[pos as int], crate::stream::cells_events(h), EventV::End(TagEnd::TableHead));
            assert(h.take(h.len() as int) =~= h);
        }
    }
    push_str(out, "<thead>\n<tr>\n");
    match ctx.tables.pop() {
        Some(mut f) => {
            f.in_head = true;
            f.col = 0;
            ctx.tables.push(f);
        },
        None => {},
    }
    let np = render_blocks(events, pos + 1, ctx, out, hl, Ghost(Region::Cells(h)));
    match ctx.tables.pop() {
        Some(mut f) => {
            f.in_head = false;
            ctx.tables.push(f);
        },
        None => {},
    }
    push_str(out, "</tr>\n</thead>\n");
    proof {
        if hyp {
            assert(ctx.tables@.drop_last() =~= c0.tables@.drop_last());
            assert(out@ =~= o + unit_html(u, c0, hl));
        }
    }
    np
}

/// A body row (`<td>` cells); the first opens `<tbody>`.
fn render_table_row(
    events: &[Event],
    pos: usize,
    ctx: &mut RenderCtx,
    out: &mut Vec<char>,
    hl: Option<&dyn SyntaxHighlighter>,
    Ghost(u): Ghost<Unit>,
) -> (np: usize)
    requires
        events@.len() < usize::MAX,
        pos < events@.len(),
        events@[pos as int] matches Event::Start(Tag::TableRow),
    ensures
        pos < np <= events@.len() + 1,
        ctx_kept(*old(ctx), *final(ctx)),
        unit_done(u, event_views(events@), pos as int, np as int, *old(ctx), *final(ctx), old(out)@, final(out)@, hl),
    decreases events@.len() + 1 - pos, 2int,
{
    let ghost ev = event_views(events@);
    let ghost c0 = *ctx;
    let ghost o = out@;
    let ghost hyp = hl_stated(hl) && unit_pre(u, c0) && at(ev, pos as int, unit_events(u));
    proof {
        if hyp {
            lemma_unit_shape(u);
            assert(ev[pos as int] == events@[pos as int]@);
            lemma_at_split(ev, pos as int, unit_events(u), Seq::empty());
            assert(unit_events(u) + Seq::<EventV>::empty() =~= unit_events(u));
            assert(ev[pos as int] == unit_events(u)[0]);
        }
    }
    let ghost r: Seq<TableCell> = match u {
        Unit::Row(x) => x,
        _ => Seq::empty(),
    };
    proof {
        if hyp {
            lemma_cells_units(r);
            lemma_cells_len(r);
            lemma_at_wrap(ev, pos as int, ev[pos as int], crate::stream::cells_events(r), EventV::End(TagEnd::TableRow));
            assert(r.take(r.len() as int) =~= r);
        }
    }
    let n = ctx.tables.len();
    let first = if n > 0 {
        !ctx.tables[n - 1].had_rows
    } else {
        true
    };
    if first {
        push_str(out, "<tbody>\n");
    }
    match ctx.tables.pop() {
        Some(mut f) => {
            f.had_rows = true;
            f.in_head = false;
            f.col = 0;
            ctx.tables.push(f);
        },
        None => {},
    }
    push_str(out, "<tr>\n");
    let np = render_blocks(events, pos + 1, ctx, out, hl, Ghost(Region::Cells(r)));
    push_str(out, "</tr>\n");
    proof {
        if hyp {
            assert(ctx.tables@.drop_last() =~= c0.tables@.drop_last());
            assert(out@ =~= o + unit_html(u, c0, hl));
        }
    }
    np
}

/// One cell, with the column's alignment.
fn render_table_cell(
    events: &[Event],
    pos: usize,
    ctx: &mut RenderCtx,
    out: &mut Vec<char>,
    hl: Option<&dyn SyntaxHighlighter>,
    Ghost(u): Ghost<Unit>,
) -> (np: usize)
    requires
        events@.len() < usize::MAX,
        pos < events@.len(),
        events@[pos as int] matches Event::Start(Tag::TableCell),
    ensures
        pos < np <= events@.len() + 1,
        ctx_kept(*old(ctx), *final(ctx)),
        unit_done(u, event_views(events@), pos as int, np as int, *old(ctx), *final(ctx), old(out)@, final(out)@, hl),
    decreases events@.len() + 1 - pos, 2int,
{
    let ghost ev = event_views(events@);
    let ghost c0 = *ctx;
    let ghost o = out@;
    let ghost hyp = hl_stated(hl) && unit_pre(u, c0) && at(ev, pos as int, unit_events(u));
    proof {
        if hyp {
            lemma_unit_shape(u);
            assert(ev[pos as int] == events@[pos as int]@);
            lemma_at_split(ev, pos as int, unit_events(u), Seq::empty());
            assert(unit_events(u) + Seq::<EventV>::empty() =~= unit_events(u));
            assert(ev[pos as int] == unit_events(u)[0]);
        }
    }
    let ghost inl: Seq<Inline> = match u {
        Unit::Cell(x) => x.content@,
        _ => Seq::empty(),
    };
    proof {
        if hyp {
            lemma_at_wrap(ev, pos as int, ev[pos as int], inlines_events(inl), EventV::End(TagEnd::TableCell));
        }
    }
    let n = ctx.tables.len();
    let (in_head, alignment) = if n > 0 {
        let f = &ctx.tables[n - 1];
        let a = if f.col < f.alignments.len() {
            f.alignments[f.col]
        } else {
            Alignment::Unset
        };
        (f.in_head, a)
    } else {
        (false, Alignment::Unset)
    };
    if in_head {
        push_str(out, "<th");
    } else {
        push_str(out, "<td");
    }
    push_align(out, alignment);
    out.push('>');
    let np = render_inlines_until(events, pos + 1, ctx, out, TagEnd::TableCell, Ghost(inl));
    match ctx.tables.pop() {
        Some(mut f) => {
            f.col = f.col.saturating_add(1);
            ctx.tables.push(f);
        },
        None => {},
    }
    if in_head {
        push_str(out, "</th>\n");
    } else {
        push_str(out, "</td>\n");
    }
    proof {
        if hyp {
            reveal_strlit("<th");
            reveal_strlit("<td");
            reveal_strlit("<");
            reveal_strlit("th");
            reveal_strlit("td");
            reveal_strlit(">");
            reveal_strlit("</th>\n");
            reveal_strlit("</td>\n");
            reveal_strlit("</");
            reveal_strlit(">\n");
            assert(ctx.tables@.drop_last() =~= c0.tables@.drop_last());
            assert(out@ =~= o + unit_html(u, c0, hl));
        }
    }
    np
}

fn clone_aligns(a: &Vec<Alignment>) -> (r: Vec<Alignment>)
    ensures
        r@ == a@,
{
    let mut r: Vec<Alignment> = Vec::new();
    let mut k: usize = 0;
    while k < a.len()
        invariant
            k <= a@.len(),
            r@ == a@.take(k as int),
        decreases a@.len() - k,
    {
        r.push(a[k]);
        assert(r@ =~= a@.take(k + 1));
        k += 1;
    }
    assert(a@.take(a@.len() as int) =~= a@);
    r
}

/// The bare checkbox: the checkbox without its trailing space.
proof fn lemma_bare_checkbox(task: Option<bool>, bare: Seq<char>)
    requires
        bare.len() <= crate::ast::task_checkbox(task).len(),
        bare == crate::ast::task_checkbox(task).take(bare.len() as int),
        forall|j: int|
            bare.len() <= j < crate::ast::task_checkbox(task).len() ==> crate::text::spec_is_whitespace(
                #[trigger] crate::ast::task_checkbox(task)[j],
            ),
        bare.len() > 0 ==> !crate::text::spec_is_whitespace(crate::ast::task_checkbox(task)[bare.len() - 1]),
    ensures
        bare == crate::ast::task_checkbox_bare(task),
{
    reveal_strlit("<input type=\"checkbox\" checked=\"\" disabled=\"\" />");
    reveal_strlit("<input type=\"checkbox\" disabled=\"\" />");
    reveal_strlit("<input type=\"checkbox\" checked=\"\" disabled=\"\" /> ");
    reveal_strlit("<input type=\"checkbox\" disabled=\"\" /> ");
    let cb = crate::ast::task_checkbox(task);
    match task {
        Some(_) => {
            let n = cb.len() - 1;
            assert(cb[n] == ' ');
            assert(cb[n - 1] == '>');
            if bare.len() < n {
                assert(crate::text::spec_is_whitespace(cb[n - 1]));
            }
            assert(bare.len() == n);
            assert(bare =~= crate::ast::task_checkbox_bare(task));
        },
        None => {
            assert(bare =~= crate::ast::task_checkbox_bare(task));
        },
    }
}

pub(crate) proof fn lemma_ok_tight_at(bs: Seq<Block>, k: int)
    requires
        ok_tight_children(bs),
        0 <= k < bs.len(),
        !(bs[k] is Paragraph),
    ensures
        ok_block(bs[k]),
    decreases bs.len(),
{
    if k < bs.len() - 1 {
        lemma_ok_tight_at(bs.drop_last(), k);
    }
}

/// The children of item `it` stand from `cur` on, split into `blocks`.
spec fn item_layout(ev: Seq<EventV>, cur: int, blocks: Seq<(usize, usize)>, it: ListItem) -> bool {
    let bs = it.blocks@;
    &&& at(ev, cur, blocks_events(bs))
    &&& blocks.len() == bs.len()
    &&& forall|j: int|
        0 <= j < bs.len() ==> (#[trigger] blocks[j]).0 == cur + blocks_events(bs.take(j)).len()
            && blocks[j].1 == blocks[j].0 + block_events(bs[j]).len() - 1
}

/// A tight item: paragraphs unwrap, other children go through the block
/// path with a line feed before them.
#[verifier::spinoff_prover]
#[verifier::rlimit(60)]
fn render_tight_item(
    events: &[Event],
    pos: usize,
    end: usize,
    cur: usize,
    blocks: &Vec<(usize, usize)>,
    cb: &Vec<char>,
    ctx: &mut RenderCtx,
    out: &mut Vec<char>,
    hl: Option<&dyn SyntaxHighlighter>,
    Ghost(it): Ghost<ListItem>,
)
    requires
        events@.len() < usize::MAX,
        pos < end <= events@.len(),
        cur == pos + 1 || cur == pos + 2,
        forall|j: int|
            0 <= j < blocks@.len() ==> {
                &&& cur <= (#[trigger] blocks@[j]).0 < end
                &&& blocks@[j].0 <= blocks@[j].1 <= events@.len()
                &&& (events@[blocks@[j].0 as int] is Start && blocks@[j].0 < blocks@[j].1) || (events@[blocks@[j].0 as int] is Rule && blocks@[j].0 == blocks@[j].1)
            },
    ensures
        ctx_kept(*old(ctx), *final(ctx)),
        hl_stated(hl) && item_layout(event_views(events@), cur as int, blocks@, it) && ok_item(it, true) && cb@ == crate::ast::task_checkbox(it.task) ==> final(out)@ == old(out)@
            + crate::ast::item_html_hl(it, true, hl) && final(ctx).tables@ == old(ctx).tables@
            && final(ctx).defs@ == old(ctx).defs@,
    decreases events@.len() + 1 - pos, 1int,
{
    let ghost ev = event_views(events@);
    let ghost c0 = *ctx;
    let ghost o = out@;
    let ghost bs = it.blocks@;
    let ghost cbs = cb@;
    let ghost hyp = hl_stated(hl) && item_layout(ev, cur as int, blocks@, it) && ok_item(it, true) && cb@ == crate::ast::task_checkbox(it.task);
    push_str(out, "<li>");
    let mut first_inline = true;
    let ghost mut acc: Seq<char> = "<li>"@;
    let mut k: usize = 0;
    proof {
        reveal_strlit("<li>");
    }
    while k < blocks.len()
        invariant
            events@.len() < usize::MAX,
            pos < end <= events@.len(),
            cur == pos + 1 || cur == pos + 2,
            forall|j: int|
                0 <= j < blocks@.len() ==> {
                    &&& cur <= (#[trigger] blocks@[j]).0 < end
                    &&& blocks@[j].0 <= blocks@[j].1 <= events@.len()
                    &&& (events@[blocks@[j].0 as int] is Start && blocks@[j].0 < blocks@[j].1) || (events@[blocks@[j].0 as int] is Rule && blocks@[j].0 == blocks@[j].1)
                },
            ctx.lists@ == old(ctx).lists@,
            ctx.dl_tight@ == old(ctx).dl_tight@,
            ctx.tables@.len() == old(ctx).tables@.len(),
            ev == event_views(events@),
            c0 == *old(ctx),
            cbs == cb@,
            hyp == (hl_stated(hl) && item_layout(ev, cur as int, blocks@, it) && ok_item(it, true) && cb@ == crate::ast::task_checkbox(it.task)),
            hyp ==> ok_item(it, true) && ok_tight_children(bs),
            hyp ==> blocks@.len() == bs.len() && forall|j: int|
                0 <= j < bs.len() ==> (#[trigger] blocks@[j]).0 == cur + blocks_events(
                    bs.take(j),
                ).len() && blocks@[j].1 == blocks@[j].0 + block_events(bs[j]).len() - 1,
            hyp ==> at(ev, cur as int, blocks_events(bs)),
            hyp ==> ctx.tables@ == c0.tables@ && ctx.defs@ == c0.defs@,
            hyp ==> k <= bs.len() && acc.len() > 0 && out@ == o + acc && crate::ast::tight_from_hl(
                "<li>"@,
                bs,
                0,
                true,
                cbs,
                hl,
            ) == crate::ast::tight_from_hl(acc, bs, k as int, first_inline, cbs, hl),
        decreases blocks@.len() - k,
    {
        let (lo, hi) = blocks[k];
        proof {
            if hyp {
                lemma_blocks_at(bs, k as int);
                lemma_at_split(ev, cur as int, blocks_events(bs.take(k as int)), block_events(bs[k as int]) + blocks_events(bs.skip(k + 1)));
                lemma_at_split(ev, lo as int, block_events(bs[k as int]), blocks_events(bs.skip(k + 1)));
                lemma_block_nn(bs[k as int]);
                assert(ev[lo as int] == events@[lo as int]@);
                assert(ev[lo as int] == block_events(bs[k as int])[0]);
            }
        }
        let ghost fb = first_inline;
        let ghost bk: Block = if hyp { bs[k as int] } else { arbitrary() };
        if is_paragraph_start(events, lo) {
            let ghost inl: Seq<Inline> = match bk {
                Block::Paragraph(v) => v@,
                _ => Seq::empty(),
            };
            proof {
                if hyp {
                    assert(block_events(bk) =~= wrap(EventV::Start(TagV::Paragraph), inlines_events(inl), EventV::End(TagEnd::Paragraph)));
                    lemma_at_wrap(ev, lo as int, EventV::Start(TagV::Paragraph), inlines_events(inl), EventV::End(TagEnd::Paragraph));
                }
            }
            if k > 0 && !ends_with_nl(out) {
                out.push('\n');
            }
            if first_inline {
                push_vec(out, cb);
                first_inline = false;
            }
            render_inline_range(events, lo + 1, hi, ctx, out, Ghost(inl));
            proof {
                if hyp {
                    let c1s = if k > 0 && !crate::ast::ends_nl(acc) {
                        acc.push('\n')
                    } else {
                        acc
                    };
                    let c2s = if fb {
                        c1s + cbs
                    } else {
                        c1s
                    };
                    let nacc = c2s + crate::ast::list_inline_html(inl);
                    assert(out@ =~= o + nacc);
                    acc = nacc;
                }
            }
        } else {
            if !ends_with_nl(out) {
                out.push('\n');
            }
            proof {
                if hyp {
                    lemma_ok_tight_at(bs, k as int);
                }
            }
            render_block_range(events, lo, hi, ctx, out, hl, Ghost(Unit::Block(bk)));
            proof {
                if hyp {
                    let c1s = if !crate::ast::ends_nl(acc) {
                        acc.push('\n')
                    } else {
                        acc
                    };
                    let nacc = c1s + crate::ast::block_html_hl(bk, hl);
                    assert(out@ =~= o + nacc);
                    acc = nacc;
                }
            }
        }
        k += 1;
    }
    let ghost o4 = out@;
    if blocks.len() == 0 {
        let bare = trim_end_ws(cb);
        push_vec(out, &bare);
        proof {
            if hyp {
                lemma_bare_checkbox(it.task, bare@);
            }
        }
    }
    push_str(out, "</li>\n");
    proof {
        if hyp {
            assert(out@ =~= o + crate::ast::item_html_hl(it, true, hl));
        }
    }
}

/// A loose, non-empty item: the first paragraph takes the checkbox, every
/// other child goes through the block path.
#[verifier::spinoff_prover]
#[verifier::rlimit(60)]
fn render_loose_item(
    events: &[Event],
    pos: usize,
    end: usize,
    cur: usize,
    blocks: &Vec<(usize, usize)>,
    cb: &Vec<char>,
    ctx: &mut RenderCtx,
    out: &mut Vec<char>,
    hl: Option<&dyn SyntaxHighlighter>,
    Ghost(it): Ghost<ListItem>,
)
    requires
        events@.len() < usize::MAX,
        pos < end <= events@.len(),
        cur == pos + 1 || cur == pos + 2,
        forall|j: int|
            0 <= j < blocks@.len() ==> {
                &&& cur <= (#[trigger] blocks@[j]).0 < end
                &&& blocks@[j].0 <= blocks@[j].1 <= events@.len()
                &&& (events@[blocks@[j].0 as int] is Start && blocks@[j].0 < blocks@[j].1) || (events@[blocks@[j].0 as int] is Rule && blocks@[j].0 == blocks@[j].1)
            },
    ensures
        ctx_kept(*old(ctx), *final(ctx)),
        hl_stated(hl) && item_layout(event_views(events@), cur as int, blocks@, it) && !crate::ast::empty_item(it) && ok_item(it, false) && cb@ == crate::ast::task_checkbox(it.task) ==> final(out)@ == old(out)@
            + crate::ast::item_html_hl(it, false, hl) && final(ctx).tables@ == old(ctx).tables@
            && final(ctx).defs@ == old(ctx).defs@,
    decreases events@.len() + 1 - pos, 1int,
{
    let ghost ev = event_views(events@);
    let ghost c0 = *ctx;
    let ghost o = out@;
    let ghost bs = it.blocks@;
    let ghost cbs = cb@;
    let ghost hyp = hl_stated(hl) && item_layout(ev, cur as int, blocks@, it) && !crate::ast::empty_item(it) && ok_item(it, false) && cb@ == crate::ast::task_checkbox(it.task);
    push_str(out, "<li>\n");
    let ghost mut x: Seq<char> = Seq::empty();
    let mut rendered_first = false;
    let mut k: usize = 0;
    proof {
        reveal_strlit("<li>\n");
    }
    while k < blocks.len()
        invariant
            events@.len() < usize::MAX,
            pos < end <= events@.len(),
            cur == pos + 1 || cur == pos + 2,
            forall|j: int|
                0 <= j < blocks@.len() ==> {
                    &&& cur <= (#[trigger] blocks@[j]).0 < end
                    &&& blocks@[j].0 <= blocks@[j].1 <= events@.len()
                    &&& (events@[blocks@[j].0 as int] is Start && blocks@[j].0 < blocks@[j].1) || (events@[blocks@[j].0 as int] is Rule && blocks@[j].0 == blocks@[j].1)
                },
            ctx.lists@ == old(ctx).lists@,
            ctx.dl_tight@ == old(ctx).dl_tight@,
            ctx.tables@.len() == old(ctx).tables@.len(),
            ev == event_views(events@),
            c0 == *old(ctx),
            cbs == cb@,
            hyp == (hl_stated(hl) && item_layout(ev, cur as int, blocks@, it) && !crate::ast::empty_item(it) && ok_item(it, false) && cb@ == crate::ast::task_checkbox(it.task)),
            hyp ==> blocks@.len() == bs.len() && forall|j: int|
                0 <= j < bs.len() ==> (#[trigger] blocks@[j]).0 == cur + blocks_events(
                    bs.take(j),
                ).len() && blocks@[j].1 == blocks@[j].0 + block_events(bs[j]).len() - 1,
            hyp ==> at(ev, cur as int, blocks_events(bs)),
            hyp ==> ctx.tables@ == c0.tables@ && ctx.defs@ == c0.defs@,
            hyp ==> k <= bs.len() && out@ == o + "<li>\n"@ + x && x + crate::ast::loose_from_hl(
                bs,
                k as int,
                rendered_first,
                cbs,
                hl,
            ) == crate::ast::loose_from_hl(bs, 0, false, cbs, hl) && ok_loose_from(bs, k as int, rendered_first),
        decreases blocks@.len() - k,
    {
        let (lo, hi) = blocks[k];
        proof {
            if hyp {
                lemma_blocks_at(bs, k as int);
                lemma_at_split(ev, cur as int, blocks_events(bs.take(k as int)), block_events(bs[k as int]) + blocks_events(bs.skip(k + 1)));
                lemma_at_split(ev, lo as int, block_events(bs[k as int]), blocks_events(bs.skip(k + 1)));
                lemma_block_nn(bs[k as int]);
                assert(ev[lo as int] == events@[lo as int]@);
                assert(ev[lo as int] == block_events(bs[k as int])[0]);
            }
        }
        let ghost bk: Block = if hyp { bs[k as int] } else { arbitrary() };
        let ghost ob = out@;
        let is_first_para = !rendered_first && is_paragraph_start(events, lo);
        if is_first_para {
            let ghost inl: Seq<Inline> = match bk {
                Block::Paragraph(v) => v@,
                _ => Seq::empty(),
            };
            proof {
                if hyp {
                    assert(block_events(bk) =~= wrap(EventV::Start(TagV::Paragraph), inlines_events(inl), EventV::End(TagEnd::Paragraph)));
                    lemma_at_wrap(ev, lo as int, EventV::Start(TagV::Paragraph), inlines_events(inl), EventV::End(TagEnd::Paragraph));
                }
            }
            rendered_first = true;
            push_str(out, "<p>");
            push_vec(out, cb);
            render_inline_range(events, lo + 1, hi, ctx, out, Ghost(inl));
            push_str(out, "</p>\n");
            proof {
                if hyp {
                    let piece = "<p>"@ + cbs + crate::ast::list_inline_html(inl) + "</p>\n"@;
                    assert(out@ =~= ob + piece);
                    x = x + piece;
                }
            }
        } else {
            render_block_range(events, lo, hi, ctx, out, hl, Ghost(Unit::Block(bk)));
            proof {
                if hyp {
                    x = x + crate::ast::block_html_hl(bk, hl);
                }
            }
        }
        k += 1;
    }
    push_str(out, "</li>\n");
    proof {
        if hyp {
            assert(out@ =~= o + crate::ast::item_html_hl(it, false, hl));
        }
    }
}

/// Render one list item (its opener at `pos`): tight items unwrap their
/// paragraphs, loose items keep them, an empty loose item collapses, and a
/// task checkbox leads the first paragraph.
#[verifier::spinoff_prover]
#[verifier::rlimit(60)]
fn render_item(
    events: &[Event],
    pos: usize,
    ctx: &mut RenderCtx,
    out: &mut Vec<char>,
    hl: Option<&dyn SyntaxHighlighter>,
    Ghost(it): Ghost<ListItem>,
) -> (np: usize)
    requires
        events@.len() < usize::MAX,
        pos < events@.len(),
        events@[pos as int] is Start,
    ensures
        pos < np <= events@.len() + 1,
        ctx_kept(*old(ctx), *final(ctx)),
        hl_stated(hl) && unit_pre(Unit::Item(it), *old(ctx)) && at(
            event_views(events@),
            pos as int,
            unit_events(Unit::Item(it)),
        ) ==> np == pos + unit_events(Unit::Item(it)).len() && final(out)@ == old(out)@
            + unit_html(Unit::Item(it), *old(ctx), hl) && unit_post(
            Unit::Item(it),
            *old(ctx),
            *final(ctx),
        ),
    decreases events@.len() + 1 - pos, 2int,
{
    let ghost ev = event_views(events@);
    let ghost c0 = *ctx;
    let ghost o = out@;
    let ghost bs = it.blocks@;
    let ghost ie = crate::stream::item_events(it);
    let ghost hyp = hl_stated(hl) && unit_pre(Unit::Item(it), c0) && at(ev, pos as int, ie);
    let ghost tev: Seq<EventV> = match it.task {
        Some(c) => seq![EventV::TaskListMarker(c)],
        None => Seq::empty(),
    };
    proof {
        if hyp {
            lemma_item_nn(it);
            assert(ie =~= wrap(EventV::Start(TagV::Item), tev + blocks_events(bs), EventV::End(TagEnd::Item)));
            lemma_at_wrap(ev, pos as int, EventV::Start(TagV::Item), tev + blocks_events(bs), EventV::End(TagEnd::Item));
            lemma_at_split(ev, pos + 1, tev, blocks_events(bs));
            assert(ev[pos + 1] == events@[pos + 1]@);
            if bs.len() > 0 {
                lemma_blocks_at(bs, 0);
                assert(bs.take(0) =~= Seq::<Block>::empty());
                assert(blocks_events(bs) =~= block_events(bs[0]) + blocks_events(bs.skip(1)));
                lemma_at_split(ev, pos + 1 + tev.len(), block_events(bs[0]), blocks_events(bs.skip(1)));
                lemma_block_nn(bs[0]);
                lemma_unit_shape(Unit::Block(bs[0]));
            }
        }
    }
    let end = find_end(events, pos, Ghost(ie));
    let mut cur: usize = pos + 1;
    let mut task: Option<bool> = None;
    if cur < events.len() {
        match &events[cur] {
            Event::TaskListMarker(c) => {
                task = Some(*c);
                cur = cur + 1;
            },
            _ => {},
        }
    }
    proof {
        if hyp {
            assert(task == it.task);
            assert(cur == pos + 1 + tev.len());
        }
    }
    let blocks = child_ranges(events, cur, end, Ghost(bs));
    let nl = ctx.lists.len();
    let tight = if nl > 0 {
        ctx.lists[nl - 1]
    } else {
        false
    };
    let cb = checkbox(task);
    let ghost cbs = cb@;
    proof {
        if hyp {
            assert(tight == c0.lists@.last());
            assert(cbs == crate::ast::task_checkbox(it.task));
        }
    }
    if tight {
        render_tight_item(events, pos, end, cur, &blocks, &cb, ctx, out, hl, Ghost(it));
    } else if blocks.len() == 0 || is_single_empty_paragraph(events, &blocks) {
        proof {
            if hyp {
                if bs.len() == 1 {
                    lemma_blocks_at(bs, 0);
                    assert(bs.take(0) =~= Seq::<Block>::empty());
                    match bs[0] {
                        Block::Paragraph(v) => {
                            lemma_inlines_len(v@);
                        },
                        _ => {},
                    }
                }
                assert(crate::ast::empty_item(it));
            }
        }
        match task {
            Some(_) => {
                push_str(out, "<li>\n");
                push_str(out, "<p>");
                let bare = trim_end_ws(&cb);
                push_vec(out, &bare);
                push_str(out, "</p>\n");
                push_str(out, "</li>\n");
                proof {
                    if hyp {
                        lemma_bare_checkbox(it.task, bare@);
                        reveal_strlit("<li>\n");
                        reveal_strlit("<p>");
                        reveal_strlit("</p>\n");
                        reveal_strlit("</li>\n");
                        reveal_strlit("<li>\n<p>");
                        reveal_strlit("</p>\n</li>\n");
                    }
                }
            },
            None => push_str(out, "<li></li>\n"),
        }
        proof {
            if hyp {
                assert(out@ =~= o + unit_html(Unit::Item(it), c0, hl));
            }
        }
    } else {
        proof {
            if hyp {
                if bs.len() == 1 {
                    lemma_blocks_at(bs, 0);
                    assert(bs.take(0) =~= Seq::<Block>::empty());
                    match bs[0] {
                        Block::Paragraph(v) => {
                            if v@.len() == 0 {
                                assert(inlines_events(v@) =~= Seq::<EventV>::empty());
                            }
                        },
                        _ => {},
                    }
                }
                assert(!crate::ast::empty_item(it));
            }
        }
        render_loose_item(events, pos, end, cur, &blocks, &cb, ctx, out, hl, Ghost(it));
    }
    end + 1
}

/// A loose item made of one paragraph with nothing between its tags.
fn is_single_empty_paragraph(events: &[Event], blocks: &Vec<(usize, usize)>) -> (r: bool)
    ensures
        r == (blocks@.len() == 1 && blocks@[0].0 < events@.len() && (events@[blocks@[0].0 as int] matches Event::Start(Tag::Paragraph)) && blocks@[0].1
            <= blocks@[0].0 + 1),
{
    blocks.len() == 1 && is_paragraph_start(events, blocks[0].0) && blocks[0].1.saturating_sub(
        blocks[0].0,
    ) <= 1
}

/// Render a definition description (its opener at `pos`): a single
/// paragraph in a tight list unwraps, an empty one collapses.
fn render_description(
    events: &[Event],
    pos: usize,
    ctx: &mut RenderCtx,
    out: &mut Vec<char>,
    hl: Option<&dyn SyntaxHighlighter>,
) -> (np: usize)
    requires
        events@.len() < usize::MAX,
        pos < events@.len(),
        events@[pos as int] is Start,
    ensures
        pos < np <= events@.len() + 1,
        ctx_kept(*old(ctx), *final(ctx)),
    decreases events@.len() + 1 - pos, 2int,
{
    let end = find_end(events, pos, Ghost(Seq::empty()));
    let blocks = child_ranges(events, pos + 1, end, Ghost(Seq::empty()));
    let nd = ctx.dl_tight.len();
    let tight = if nd > 0 {
        ctx.dl_tight[nd - 1]
    } else {
        false
    };
    let single_para = blocks.len() == 1 && is_paragraph_start(events, blocks[0].0);
    if tight && single_para {
        let (lo, hi) = blocks[0];
        push_str(out, "<dd>");
        render_inline_range(events, lo + 1, hi, ctx, out, Ghost(Seq::empty()));
        push_str(out, "</dd>\n");
    } else if blocks.len() == 0 {
        push_str(out, "<dd></dd>\n");
    } else {
        push_str(out, "<dd>\n");
        let mut k: usize = 0;
        while k < blocks.len()
            invariant
                events@.len() < usize::MAX,
                pos < end <= events@.len(),
                forall|j: int|
                    0 <= j < blocks@.len() ==> {
                        &&& pos + 1 <= (#[trigger] blocks@[j]).0 < end
                        &&& blocks@[j].0 <= blocks@[j].1 <= events@.len()
                        &&& (events@[blocks@[j].0 as int] is Start && blocks@[j].0 < blocks@[j].1) || (events@[blocks@[j].0 as int] is Rule && blocks@[j].0 == blocks@[j].1)
                    },
                ctx.lists@ == old(ctx).lists@,
                ctx.dl_tight@ == old(ctx).dl_tight@,
                ctx.tables@.len() == old(ctx).tables@.len(),
            decreases blocks@.len() - k,
        {
            let (lo, hi) = blocks[k];
            render_block_range(events, lo, hi, ctx, out, hl, Ghost(arbitrary()));
            k += 1;
        }
        push_str(out, "</dd>\n");
    }
    end + 1
}

// ---------------------------------------------------------------------------
// Footnote footer and entry points
// ---------------------------------------------------------------------------

fn ends_with_para_close(v: &Vec<char>) -> (r: bool)
    ensures
        r == (v@.len() >= 5 && v@.skip(v@.len() - 5) == "</p>\n"@),
{
    proof {
        reveal_strlit("</p>\n");
    }
    if v.len() < 5 {
        return false;
    }
    let r = crate::text::starts_with_at(v, v.len() - 5, "</p>\n");
    assert(crate::text::matches_at(v@, v@.len() - 5, "</p>\n"@) ==> v@.skip(v@.len() - 5) =~= "</p>\n"@);
    assert(v@.skip(v@.len() - 5) == "</p>\n"@ ==> crate::text::matches_at(v@, v@.len() - 5, "</p>\n"@));
    r
}

/// The back-reference anchor to reference `k` (from 1) of footnote
/// `number`, preceded by a space.
pub open spec fn backref(number: usize, k: nat) -> Seq<char> {
    " <a href=\"#fnref-"@ + spec_decimal(number as nat) + (if k > 1 {
        "-"@ + spec_decimal(k)
    } else {
        Seq::empty()
    }) + "\" class=\"footnote-backref\" data-footnote-backref aria-label=\"Back to reference "@
        + spec_decimal(number as nat) + "\">\u{21a9}"@ + (if k > 1 {
        "<sup>"@ + spec_decimal(k) + "</sup>"@
    } else {
        Seq::empty()
    }) + "</a>"@
}

/// The anchors to references 1 to `k`.
pub open spec fn backrefs_upto(number: usize, k: nat) -> Seq<char>
    decreases k,
{
    if k == 0 {
        Seq::empty()
    } else {
        backrefs_upto(number, (k - 1) as nat) + backref(number, k)
    }
}

/// Append the anchor to reference `k` of footnote `number`.
#[verifier::spinoff_prover]
fn push_backref(backs: &mut Vec<char>, number: usize, k: usize)
    ensures
        final(backs)@ == old(backs)@ + backref(number, k as nat),
{
    let ghost before = backs@;
    push_str(backs, " <a href=\"#fnref-");
    push_decimal_usize(backs, number);
    if k > 1 {
        push_str(backs, "-");
        push_decimal_usize(backs, k);
    }
    push_str(backs, "\" class=\"footnote-backref\" data-footnote-backref aria-label=\"Back to reference ");
    push_decimal_usize(backs, number);
    push_str(backs, "\">\u{21a9}");
    if k > 1 {
        push_str(backs, "<sup>");
        push_decimal_usize(backs, k);
        push_str(backs, "</sup>");
    }
    push_str(backs, "</a>");
    assert(backs@ =~= before + backref(number, k as nat));
}

/// The back-reference anchors of footnote `number` with `total`
/// references, each preceded by a space.
#[verifier::spinoff_prover]
fn backrefs(number: usize, total: usize) -> (r: Vec<char>)
    ensures
        r@ == backrefs_upto(number, total as nat),
{
    let mut backs: Vec<char> = Vec::new();
    let mut k: usize = 0;
    while k < total
        invariant
            k <= total,
            backs@ == backrefs_upto(number, k as nat),
        decreases total - k,
    {
        k += 1;
        push_backref(&mut backs, number, k);
    }
    backs
}

/// Render the footer of the footnote definitions that are referenced,
/// in the order they were met: each is an `<li id="fn-N">` whose last
/// paragraph takes the back-reference anchors (or which gains a paragraph
/// of them).
fn render_footer(events: &[Event], ctx: &mut RenderCtx, out: &mut Vec<char>, hl: Option<&dyn SyntaxHighlighter>)
    requires
        events@.len() < usize::MAX,
    ensures
        old(ctx).defs@.len() == 0 ==> final(out)@ == old(out)@,
{
    let mut kept: Vec<(String, usize, usize, usize)> = Vec::new();
    let mut d: usize = 0;
    while d < ctx.defs.len()
        invariant
            d <= ctx.defs@.len(),
            kept@.len() <= d,
        decreases ctx.defs@.len() - d,
    {
        let def = &ctx.defs[d];
        let count = match count_of(&ctx.totals, &def.label) {
            Some(n) => n,
            None => 0,
        };
        if count > 0 {
            kept.push((def.label.clone(), def.number, def.lo, def.hi));
        }
        d += 1;
    }
    if kept.len() == 0 {
        return ;
    }
    push_str(out, "<section class=\"footnotes\" data-footnotes>\n<ol>\n");
    let mut j: usize = 0;
    while j < kept.len()
        invariant
            events@.len() < usize::MAX,
        decreases kept@.len() - j,
    {
        let (label, number, lo, hi) = (&kept[j].0, kept[j].1, kept[j].2, kept[j].3);
        push_str(out, "<li id=\"fn-");
        push_decimal_usize(out, number);
        push_str(out, "\">\n");
        let total = match count_of(&ctx.totals, label) {
            Some(n) => if n > 1 {
                n
            } else {
                1
            },
            None => 1,
        };
        let backs = backrefs(number, total);
        let mut rendered: Vec<char> = Vec::new();
        let mut q: usize = lo;
        while q < hi && q < events.len()
            invariant
                events@.len() < usize::MAX,
            decreases events@.len() + 1 - q,
        {
            match &events[q] {
                Event::Start(_) => {
                    q = render_block_at(events, q, ctx, &mut rendered, hl, Ghost(arbitrary()));
                },
                Event::End(_) => {
                    q += 1;
                },
                _ => {
                    q = render_inline_leaf(events, q, ctx, &mut rendered);
                },
            }
        }
        // A trailing top-level paragraph takes the anchors.
        let pairs = child_ranges(events, lo, hi, Ghost(Seq::empty()));
        let np = pairs.len();
        let ends_para = np > 0 && is_paragraph_start(events, pairs[np - 1].0) && ends_with_para_close(
            &rendered,
        );
        if ends_para {
            let keep = rendered.len() - 5;
            rendered.truncate(keep);
            push_vec(&mut rendered, &backs);
            push_str(&mut rendered, "</p>\n");
        } else {
            if rendered.len() > 0 && !ends_with_nl(&rendered) {
                rendered.push('\n');
            }
            push_str(&mut rendered, "<p>");
            let trimmed = trim_start_ws(&backs);
            push_vec(&mut rendered, &trimmed);
            push_str(&mut rendered, "</p>\n");
        }
        push_vec(out, &rendered);
        push_str(out, "</li>\n");
        j += 1;
    }
    push_str(out, "</ol>\n</section>\n");
}

/// Render an event slice to HTML.
///
/// On the events of a document (see [`crate::stream::events_from_document`])
/// the output is the document's HTML as [`crate::ast::render_html`] gives
/// it, for every document whose indented code carries no language (the
/// events do not tell indented code from fenced code). Footnote definitions
/// never render in flow; they are collected during the walk and emitted as
/// the `<section class="footnotes" data-footnotes>` footer.
pub fn render_events_to_html(events: &[Event]) -> (r: String)
    requires
        events@.len() < usize::MAX,
    ensures
        forall|bs: Seq<Block>|
            crate::stream_law::code_ok_all(bs) && #[trigger] blocks_events(bs) == event_views(events@) ==> r@
                == crate::ast::blocks_html(bs),
{
    let r = render_events_to_html_with_highlighter(events, None);
    proof {
        assert(hl_stated(None));
        assert forall|bs: Seq<Block>|
            crate::stream_law::code_ok_all(bs) && #[trigger] blocks_events(bs) == event_views(events@) implies r@
                == crate::ast::blocks_html(bs) by {
            crate::ast::lemma_blocks_hl_none(bs);
        }
    }
    r
}

/// Render an event slice to HTML with an optional highlighter for code
/// blocks. On the events of a document (as for [`render_events_to_html`])
/// the output is the document's HTML with each code block's content given
/// by the highlighter for the block's language and text (see
/// [`crate::ast::code_body_html`]); with `None` it is escaped.
pub fn render_events_to_html_with_highlighter(
    events: &[Event],
    highlighter: Option<&dyn SyntaxHighlighter>,
) -> (r: String)
    requires
        events@.len() < usize::MAX,
    ensures
        hl_stated(highlighter) ==> forall|bs: Seq<Block>|
            crate::stream_law::code_ok_all(bs) && #[trigger] blocks_events(bs) == event_views(events@) ==> r@
                == crate::ast::blocks_html_hl(bs, highlighter),
{
    let ghost ev = event_views(events@);
    let ghost bs0 = choose|bs: Seq<Block>| crate::stream_law::code_ok_all(bs) && blocks_events(bs) == ev;
    let mut totals: Vec<(String, usize)> = Vec::new();
    let mut k: usize = 0;
    while k < events.len()
        invariant
            k <= events@.len(),
        decreases events@.len() - k,
    {
        match &events[k] {
            Event::FootnoteReference { label, .. } => {
                let _ = bump(&mut totals, label);
            },
            _ => {},
        }
        k += 1;
    }
    let mut ctx = RenderCtx {
        lists: Vec::new(),
        tables: Vec::new(),
        dl_tight: Vec::new(),
        seen: Vec::new(),
        totals,
        defs: Vec::new(),
    };
    let ghost c0 = ctx;
    let ghost good = hl_stated(highlighter) && crate::stream_law::code_ok_all(bs0) && blocks_events(bs0) == ev;
    proof {
        if good {
            crate::stream_law::lemma_code_ok_blocks(bs0);
            lemma_blocks_units(bs0);
            assert(ev.subrange(0, ev.len() as int) =~= ev);
        }
    }
    let mut out: Vec<char> = Vec::new();
    let _ = render_blocks(events, 0, &mut ctx, &mut out, highlighter, Ghost(Region::Blocks(bs0)));
    let ghost mid = out@;
    proof {
        if good {
            assert(reg_units(Region::Blocks(bs0)).len() == bs0.len());
            assert(bs0.take(bs0.len() as int) =~= bs0);
            assert(ctx.defs@ == c0.defs@);
            assert(mid == crate::ast::blocks_html_hl(bs0, highlighter));
        }
    }
    render_footer(events, &mut ctx, &mut out, highlighter);
    let r = string_of(&out);
    proof {
        assert forall|bs: Seq<Block>|
            hl_stated(highlighter) && crate::stream_law::code_ok_all(bs) && #[trigger] blocks_events(bs) == ev implies r@
                == crate::ast::blocks_html_hl(bs, highlighter) by {
            assert(good);
            crate::stream_law::lemma_blocks_det(bs, bs0, highlighter);
        }
    }
    r
}

} // verus!
