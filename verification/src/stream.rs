#![verifier::loop_isolation(false)]

//! Pull streaming API: a pulldown-style [`Event`] stream over the AST.
//!
//! The stream walks a [`Document`] (see [`Parser`]); it is not a separate
//! tokenizer. [`TagEnd`] is split from [`Tag`] and carries no payloads, so
//! consumers can match on closers without binding data. Opening data
//! (heading level, link destination, table alignments, ...) lives on
//! [`Tag`]; leaf content lives on dedicated [`Event`] variants. All
//! payloads are owned `String`s. Frontmatter is metadata and produces no
//! events.

use vstd::prelude::*;
use crate::ast::{Alignment, Block, CodeBlockKind, Document, Inline, List, ListItem, Table, TableCell};
use crate::text::{chars_of, push_vec, string_of};
pub use crate::stream_html::{render_events_to_html, render_events_to_html_with_highlighter};

verus! {

broadcast use vstd::string::group_string_axioms;

// ---------------------------------------------------------------------------
// Events
// ---------------------------------------------------------------------------

/// An opening tag carrying whatever payload its HTML needs.
#[derive(Debug, PartialEq)]
pub enum Tag {
    /// `<p>`.
    Paragraph,
    /// `<hN>`.
    Heading { level: u8 },
    /// `<blockquote>`.
    BlockQuote,
    /// `<pre><code>`; `info` is the fenced info string (empty for indented).
    CodeBlock { info: String },
    /// Verbatim HTML block; inner [`Event::Html`] lines carry the content.
    HtmlBlock,
    /// `<ul>` / `<ol>`.
    List { ordered: bool, start: u32, tight: bool },
    /// `<li>`. A leading [`Event::TaskListMarker`] carries task state.
    Item,
    /// `<table>`; alignments drive per-cell `align` attributes.
    Table { alignments: Vec<Alignment> },
    /// `<thead><tr>`.
    TableHead,
    /// `<tr>` (body row; opens `<tbody>` on the first row).
    TableRow,
    /// `<th>` (in head) / `<td>` (in body).
    TableCell,
    /// Footnote definition, hoisted into the footnotes footer.
    FootnoteDefinition { label: String, number: usize },
    /// `<dl>`; `tight` unwraps single-paragraph descriptions.
    DefinitionList { tight: bool },
    /// One definition-list entry (terms sharing descriptions).
    DefinitionListItem,
    /// `<dt>`.
    DefinitionTerm,
    /// `<dd>`.
    DefinitionDescription,
    /// `<em>`.
    Emphasis,
    /// `<strong>`.
    Strong,
    /// `<del>`.
    Strikethrough,
    /// `<a>`; children are the link text events.
    Link { url: String, title: Option<String> },
    /// `<img />`; `alt` rides in the payload and no child events follow.
    Image { alt: String, url: String, title: Option<String> },
}

/// A closing tag: payload-free, one per [`Tag`] kind.
#[derive(Debug, Clone, Copy, PartialEq, Eq, Structural)]
pub enum TagEnd {
    Paragraph,
    Heading,
    BlockQuote,
    CodeBlock,
    HtmlBlock,
    List,
    Item,
    Table,
    TableHead,
    TableRow,
    TableCell,
    FootnoteDefinition,
    DefinitionList,
    DefinitionListItem,
    DefinitionTerm,
    DefinitionDescription,
    Emphasis,
    Strong,
    Strikethrough,
    Link,
    Image,
}

/// A stream event. All payloads are owned.
#[derive(Debug, PartialEq)]
pub enum Event {
    /// An opening tag (payloads live here).
    Start(Tag),
    /// A closing tag.
    End(TagEnd),
    /// Literal text (entities decoded, escapes resolved).
    Text(String),
    /// Code span content.
    Code(String),
    /// Inline `$...$` math (verbatim content).
    MathInline(String),
    /// Display `$$...$$` math (verbatim content).
    MathDisplay(String),
    /// One verbatim HTML block line (inside `HtmlBlock`).
    Html(String),
    /// Inline raw HTML, passed through verbatim.
    InlineHtml(String),
    /// Footnote reference (`[^label]`) with its 1-based number.
    FootnoteReference { label: String, number: usize },
    /// Plain line ending inside a paragraph.
    SoftBreak,
    /// Two-space / backslash line ending.
    HardBreak,
    /// Thematic break (`<hr />`).
    Rule,
    /// Task-list checkbox; always the first event inside an `Item`.
    TaskListMarker(bool),
}

// ---------------------------------------------------------------------------
// Abstract view of events
// ---------------------------------------------------------------------------

/// A tag as values: strings by their characters.
pub ghost enum TagV {
    Paragraph,
    Heading { level: u8 },
    BlockQuote,
    CodeBlock { info: Seq<char> },
    HtmlBlock,
    List { ordered: bool, start: u32, tight: bool },
    Item,
    Table { alignments: Seq<Alignment> },
    TableHead,
    TableRow,
    TableCell,
    FootnoteDefinition { label: Seq<char>, number: usize },
    DefinitionList { tight: bool },
    DefinitionListItem,
    DefinitionTerm,
    DefinitionDescription,
    Emphasis,
    Strong,
    Strikethrough,
    Link { url: Seq<char>, title: Option<Seq<char>> },
    Image { alt: Seq<char>, url: Seq<char>, title: Option<Seq<char>> },
}

/// An event as values.
pub ghost enum EventV {
    Start(TagV),
    End(TagEnd),
    Text(Seq<char>),
    Code(Seq<char>),
    MathInline(Seq<char>),
    MathDisplay(Seq<char>),
    Html(Seq<char>),
    InlineHtml(Seq<char>),
    FootnoteReference { label: Seq<char>, number: usize },
    SoftBreak,
    HardBreak,
    Rule,
    TaskListMarker(bool),
}

pub open spec fn opt_str(o: Option<String>) -> Option<Seq<char>> {
    match o {
        Some(s) => Some(s@),
        None => None,
    }
}

impl View for Tag {
    type V = TagV;

    open spec fn view(&self) -> TagV {
        match *self {
            Tag::Paragraph => TagV::Paragraph,
            Tag::Heading { level } => TagV::Heading { level },
            Tag::BlockQuote => TagV::BlockQuote,
            Tag::CodeBlock { info } => TagV::CodeBlock { info: info@ },
            Tag::HtmlBlock => TagV::HtmlBlock,
            Tag::List { ordered, start, tight } => TagV::List { ordered, start, tight },
            Tag::Item => TagV::Item,
            Tag::Table { alignments } => TagV::Table { alignments: alignments@ },
            Tag::TableHead => TagV::TableHead,
            Tag::TableRow => TagV::TableRow,
            Tag::TableCell => TagV::TableCell,
            Tag::FootnoteDefinition { label, number } => TagV::FootnoteDefinition {
                label: label@,
                number,
            },
            Tag::DefinitionList { tight } => TagV::DefinitionList { tight },
            Tag::DefinitionListItem => TagV::DefinitionListItem,
            Tag::DefinitionTerm => TagV::DefinitionTerm,
            Tag::DefinitionDescription => TagV::DefinitionDescription,
            Tag::Emphasis => TagV::Emphasis,
            Tag::Strong => TagV::Strong,
            Tag::Strikethrough => TagV::Strikethrough,
            Tag::Link { url, title } => TagV::Link { url: url@, title: opt_str(title) },
            Tag::Image { alt, url, title } => TagV::Image {
                alt: alt@,
                url: url@,
                title: opt_str(title),
            },
        }
    }
}

impl View for Event {
    type V = EventV;

    open spec fn view(&self) -> EventV {
        match *self {
            Event::Start(t) => EventV::Start(t@),
            Event::End(t) => EventV::End(t),
            Event::Text(s) => EventV::Text(s@),
            Event::Code(s) => EventV::Code(s@),
            Event::MathInline(s) => EventV::MathInline(s@),
            Event::MathDisplay(s) => EventV::MathDisplay(s@),
            Event::Html(s) => EventV::Html(s@),
            Event::InlineHtml(s) => EventV::InlineHtml(s@),
            Event::FootnoteReference { label, number } => EventV::FootnoteReference {
                label: label@,
                number,
            },
            Event::SoftBreak => EventV::SoftBreak,
            Event::HardBreak => EventV::HardBreak,
            Event::Rule => EventV::Rule,
            Event::TaskListMarker(b) => EventV::TaskListMarker(b),
        }
    }
}

/// The views of a list of events.
pub open spec fn event_views(evs: Seq<Event>) -> Seq<EventV> {
    Seq::new(evs.len(), |k: int| evs[k]@)
}

// ---------------------------------------------------------------------------
// Events of the AST
// ---------------------------------------------------------------------------

/// Code block text: lines joined with `\n`, plus a trailing `\n`.
pub open spec fn code_text(lines: Seq<String>) -> Seq<char> {
    crate::highlight::spec_code_text(crate::highlight::views(lines))
}

/// Events of one inline.
pub open spec fn inline_events(i: Inline) -> Seq<EventV>
    decreases i,
{
    match i {
        Inline::Text(s) => seq![EventV::Text(s@)],
        Inline::Emphasis { content, .. } => seq![EventV::Start(TagV::Emphasis)] + inlines_events(
            content@,
        ) + seq![EventV::End(TagEnd::Emphasis)],
        Inline::Strong { content, .. } => seq![EventV::Start(TagV::Strong)] + inlines_events(
            content@,
        ) + seq![EventV::End(TagEnd::Strong)],
        Inline::Strikethrough(content) => seq![EventV::Start(TagV::Strikethrough)]
            + inlines_events(content@) + seq![EventV::End(TagEnd::Strikethrough)],
        Inline::Code(s) => seq![EventV::Code(s@)],
        Inline::Link(link) => seq![
            EventV::Start(TagV::Link { url: link.url@, title: opt_str(link.title) }),
        ] + inlines_events(link.text@) + seq![EventV::End(TagEnd::Link)],
        Inline::Image(img) => seq![
            EventV::Start(
                TagV::Image { alt: img.alt@, url: img.url@, title: opt_str(img.title) },
            ),
            EventV::End(TagEnd::Image),
        ],
        Inline::Autolink(a) => seq![
            EventV::Start(TagV::Link { url: a.url@, title: None }),
            EventV::Text(a.text@),
            EventV::End(TagEnd::Link),
        ],
        Inline::RawHtml(s) => seq![EventV::InlineHtml(s@)],
        Inline::HardBreak => seq![EventV::HardBreak],
        Inline::SoftBreak => seq![EventV::SoftBreak],
    }
}

/// Events of a list of inlines, concatenated.
pub open spec fn inlines_events(s: Seq<Inline>) -> Seq<EventV>
    decreases s,
{
    if s.len() == 0 {
        Seq::empty()
    } else {
        inlines_events(s.drop_last()) + inline_events(s.last())
    }
}

/// Events of table cells (each wrapped in `TableCell`).
pub open spec fn cells_events(cells: Seq<TableCell>) -> Seq<EventV>
    decreases cells.len(),
{
    if cells.len() == 0 {
        Seq::empty()
    } else {
        cells_events(cells.drop_last()) + seq![EventV::Start(TagV::TableCell)] + inlines_events(
            cells.last().content@,
        ) + seq![EventV::End(TagEnd::TableCell)]
    }
}

/// Events of body rows (each wrapped in `TableRow`).
pub open spec fn rows_events(rows: Seq<Vec<TableCell>>) -> Seq<EventV>
    decreases rows.len(),
{
    if rows.len() == 0 {
        Seq::empty()
    } else {
        rows_events(rows.drop_last()) + seq![EventV::Start(TagV::TableRow)] + cells_events(
            rows.last()@,
        ) + seq![EventV::End(TagEnd::TableRow)]
    }
}

/// `Html` events of raw lines.
pub open spec fn html_line_events(lines: Seq<String>) -> Seq<EventV>
    decreases lines.len(),
{
    if lines.len() == 0 {
        Seq::empty()
    } else {
        html_line_events(lines.drop_last()) + seq![EventV::Html(lines.last()@)]
    }
}

/// Events of one block.
pub open spec fn block_events(b: Block) -> Seq<EventV>
    decreases b, 0nat,
{
    match b {
        Block::Paragraph(inl) => seq![EventV::Start(TagV::Paragraph)] + inlines_events(inl@)
            + seq![EventV::End(TagEnd::Paragraph)],
        Block::Heading(h) => seq![EventV::Start(TagV::Heading { level: h.level })]
            + inlines_events(h.content@) + seq![EventV::End(TagEnd::Heading)],
        Block::ThematicBreak(_) => seq![EventV::Rule],
        Block::CodeBlock(code) => seq![EventV::Start(TagV::CodeBlock { info: code.info@ })]
            + (if code.lines@.len() > 0 {
            seq![EventV::Text(code_text(code.lines@))]
        } else {
            Seq::empty()
        }) + seq![EventV::End(TagEnd::CodeBlock)],
        Block::HtmlBlock(lines) => seq![EventV::Start(TagV::HtmlBlock)] + html_line_events(lines@)
            + seq![EventV::End(TagEnd::HtmlBlock)],
        Block::BlockQuote(children) => seq![EventV::Start(TagV::BlockQuote)] + blocks_events(
            children@,
        ) + seq![EventV::End(TagEnd::BlockQuote)],
        Block::List(list) => seq![
            EventV::Start(
                TagV::List { ordered: list.ordered, start: list.start, tight: list.tight },
            ),
        ] + items_events(list.items@) + seq![EventV::End(TagEnd::List)],
        Block::Table(t) => seq![
            EventV::Start(TagV::Table { alignments: t.alignments@ }),
            EventV::Start(TagV::TableHead),
        ] + cells_events(t.header@) + seq![EventV::End(TagEnd::TableHead)] + rows_events(t.rows@)
            + seq![EventV::End(TagEnd::Table)],
    }
}

/// Events of a list of blocks, concatenated.
pub open spec fn blocks_events(bs: Seq<Block>) -> Seq<EventV>
    decreases bs, 0nat,
{
    if bs.len() == 0 {
        Seq::empty()
    } else {
        blocks_events(bs.drop_last()) + block_events(bs.last())
    }
}

/// Events of list items: `Item` around an optional task marker and the
/// item's blocks.
pub open spec fn items_events(items: Seq<ListItem>) -> Seq<EventV>
    decreases items, 0nat,
{
    if items.len() == 0 {
        Seq::empty()
    } else {
        items_events(items.drop_last()) + item_events(items.last())
    }
}

pub open spec fn item_events(item: ListItem) -> Seq<EventV>
    decreases item, 0nat,
{
    seq![EventV::Start(TagV::Item)] + (match item.task {
        Some(c) => seq![EventV::TaskListMarker(c)],
        None => Seq::empty(),
    }) + blocks_events(item.blocks@) + seq![EventV::End(TagEnd::Item)]
}

fn push_ev(events: &mut Vec<Event>, e: Event)
    ensures
        event_views(final(events)@) == event_views(old(events)@).push(e@),
{
    let ghost ev = e@;
    events.push(e);
    assert(event_views(events@) =~= event_views(old(events)@).push(ev));
}

fn clone_opt(o: &Option<String>) -> (r: Option<String>)
    ensures
        opt_str(r) == opt_str(*o),
{
    match o {
        Some(s) => Some(s.clone()),
        None => None,
    }
}

fn clone_aligns(a: &Vec<Alignment>) -> (r: Vec<Alignment>)
    ensures
        r@ == a@,
{
    let mut r: Vec<Alignment> = Vec::new();
    let mut k: usize = 0;
    while k < a.len()
        invariant
            k <= a@.len(),
            r@ == a@.take(k as int),
        decreases a@.len() - k,
    {
        r.push(a[k]);
        assert(r@ =~= a@.take(k + 1));
        k += 1;
    }
    assert(a@.take(a@.len() as int) =~= a@);
    r
}

fn push_inline_events(events: &mut Vec<Event>, i: &Inline)
    ensures
        event_views(final(events)@) == event_views(old(events)@) + inline_events(*i),
    decreases i,
{
    let ghost o = event_views(events@);
    match i {
        Inline::Text(t) => push_ev(events, Event::Text(t.clone())),
        Inline::Emphasis { content, .. } => {
            push_ev(events, Event::Start(Tag::Emphasis));
            push_inlines_events(events, content);
            push_ev(events, Event::End(TagEnd::Emphasis));
        },
        Inline::Strong { content, .. } => {
            push_ev(events, Event::Start(Tag::Strong));
            push_inlines_events(events, content);
            push_ev(events, Event::End(TagEnd::Strong));
        },
        Inline::Strikethrough(content) => {
            push_ev(events, Event::Start(Tag::Strikethrough));
            push_inlines_events(events, content);
            push_ev(events, Event::End(TagEnd::Strikethrough));
        },
        Inline::Code(c) => push_ev(events, Event::Code(c.clone())),
        Inline::Link(link) => {
            proof {
                assert(decreases_to!(i => link));
            }
            push_ev(events, Event::Start(Tag::Link { url: link.url.clone(), title: clone_opt(&link.title) }));
            push_inlines_events(events, &link.text);
            push_ev(events, Event::End(TagEnd::Link));
        },
        Inline::Image(img) => {
            push_ev(
                events,
                Event::Start(
                    Tag::Image {
                        alt: img.alt.clone(),
                        url: img.url.clone(),
                        title: clone_opt(&img.title),
                    },
                ),
            );
            push_ev(events, Event::End(TagEnd::Image));
        },
        Inline::Autolink(a) => {
            push_ev(events, Event::Start(Tag::Link { url: a.url.clone(), title: None }));
            push_ev(events, Event::Text(a.text.clone()));
            push_ev(events, Event::End(TagEnd::Link));
        },
        Inline::RawHtml(h) => push_ev(events, Event::InlineHtml(h.clone())),
        Inline::HardBreak => push_ev(events, Event::HardBreak),
        Inline::SoftBreak => push_ev(events, Event::SoftBreak),
    }
    assert(event_views(events@) =~= o + inline_events(*i));
}

fn push_inlines_events(events: &mut Vec<Event>, s: &Vec<Inline>)
    ensures
        event_views(final(events)@) == event_views(old(events)@) + inlines_events(s@),
    decreases s,
{
    let mut k: usize = 0;
    while k < s.len()
        invariant
            k <= s@.len(),
            event_views(events@) == event_views(old(events)@) + inlines_events(s@.take(k as int)),
        decreases s@.len() - k,
    {
        proof {
            assert(decreases_to!(s => s@));
            assert(decreases_to!(s@ => s@[k as int]));
        }
        push_inline_events(events, &s[k]);
        proof {
            let t = s@.take(k + 1);
            assert(t.drop_last() =~= s@.take(k as int));
            assert(t.last() == s@[k as int]);
        }
        k += 1;
    }
    assert(s@.take(s@.len() as int) =~= s@);
}

fn push_cells_events(events: &mut Vec<Event>, cells: &Vec<TableCell>)
    ensures
        event_views(final(events)@) == event_views(old(events)@) + cells_events(cells@),
{
    let mut k: usize = 0;
    while k < cells.len()
        invariant
            k <= cells@.len(),
            event_views(events@) == event_views(old(events)@) + cells_events(cells@.take(k as int)),
        decreases cells@.len() - k,
    {
        push_ev(events, Event::Start(Tag::TableCell));
        push_inlines_events(events, &cells[k].content);
        push_ev(events, Event::End(TagEnd::TableCell));
        proof {
            let t = cells@.take(k + 1);
            assert(t.drop_last() =~= cells@.take(k as int));
            assert(t.last() == cells@[k as int]);
        }
        k += 1;
    }
    assert(cells@.take(cells@.len() as int) =~= cells@);
}

fn push_table_events(events: &mut Vec<Event>, t: &Table)
    ensures
        event_views(final(events)@) == event_views(old(events)@) + block_events(
            Block::Table(Box::new(*t)),
        ),
{
    let ghost o = event_views(events@);
    push_ev(events, Event::Start(Tag::Table { alignments: clone_aligns(&t.alignments) }));
    push_ev(events, Event::Start(Tag::TableHead));
    push_cells_events(events, &t.header);
    push_ev(events, Event::End(TagEnd::TableHead));
    let ghost mid = event_views(events@);
    let mut q: usize = 0;
    while q < t.rows.len()
        invariant
            q <= t.rows@.len(),
            event_views(events@) == mid + rows_events(t.rows@.take(q as int)),
        decreases t.rows@.len() - q,
    {
        push_ev(events, Event::Start(Tag::TableRow));
        push_cells_events(events, &t.rows[q]);
        push_ev(events, Event::End(TagEnd::TableRow));
        proof {
            let r = t.rows@.take(q + 1);
            assert(r.drop_last() =~= t.rows@.take(q as int));
            assert(r.last() == t.rows@[q as int]);
        }
        q += 1;
    }
    assert(t.rows@.take(t.rows@.len() as int) =~= t.rows@);
    push_ev(events, Event::End(TagEnd::Table));
    assert(event_views(events@) =~= o + block_events(Block::Table(Box::new(*t))));
}

fn push_block_events(events: &mut Vec<Event>, b: &Block)
    ensures
        event_views(final(events)@) == event_views(old(events)@) + block_events(*b),
    decreases b, 0usize,
{
    let ghost o = event_views(events@);
    match b {
        Block::Paragraph(inl) => {
            push_ev(events, Event::Start(Tag::Paragraph));
            push_inlines_events(events, inl);
            push_ev(events, Event::End(TagEnd::Paragraph));
        },
        Block::Heading(h) => {
            push_ev(events, Event::Start(Tag::Heading { level: h.level }));
            push_inlines_events(events, &h.content);
            push_ev(events, Event::End(TagEnd::Heading));
        },
        Block::ThematicBreak(_) => push_ev(events, Event::Rule),
        Block::CodeBlock(code) => {
            push_ev(events, Event::Start(Tag::CodeBlock { info: code.info.clone() }));
            if code.lines.len() > 0 {
                let text = crate::highlight::join_code_text(code.lines.as_slice());
                push_ev(events, Event::Text(text));
            }
            push_ev(events, Event::End(TagEnd::CodeBlock));
        },
        Block::HtmlBlock(lines) => {
            push_ev(events, Event::Start(Tag::HtmlBlock));
            let ghost mid = event_views(events@);
            let mut k: usize = 0;
            while k < lines.len()
                invariant
                    k <= lines@.len(),
                    event_views(events@) == mid + html_line_events(lines@.take(k as int)),
                decreases lines@.len() - k,
            {
                push_ev(events, Event::Html(lines[k].clone()));
                proof {
                    let t = lines@.take(k + 1);
                    assert(t.drop_last() =~= lines@.take(k as int));
                    assert(t.last() == lines@[k as int]);
                }
                k += 1;
            }
            assert(lines@.take(lines@.len() as int) =~= lines@);
            push_ev(events, Event::End(TagEnd::HtmlBlock));
        },
        Block::BlockQuote(children) => {
            push_ev(events, Event::Start(Tag::BlockQuote));
            push_blocks_events(events, children);
            push_ev(events, Event::End(TagEnd::BlockQuote));
        },
        Block::List(list) => {
            push_ev(
                events,
                Event::Start(Tag::List { ordered: list.ordered, start: list.start, tight: list.tight }),
            );
            let ghost mid = event_views(events@);
            let mut q: usize = 0;
            while q < list.items.len()
                invariant
                    q <= list.items@.len(),
                    event_views(events@) == mid + items_events(list.items@.take(q as int)),
                decreases list.items@.len() - q,
            {
                proof {
                    assert(decreases_to!(b => list));
                    assert(decreases_to!(list => list.items));
                    assert(decreases_to!(list.items => list.items@));
                    assert(decreases_to!(list.items@ => list.items@[q as int]));
                }
                push_item_events(events, &list.items[q]);
                proof {
                    let t = list.items@.take(q + 1);
                    assert(t.drop_last() =~= list.items@.take(q as int));
                    assert(t.last() == list.items@[q as int]);
                }
                q += 1;
            }
            assert(list.items@.take(list.items@.len() as int) =~= list.items@);
            push_ev(events, Event::End(TagEnd::List));
        },
        Block::Table(t) => push_table_events(events, t),
    }
    assert(event_views(events@) =~= o + block_events(*b));
}

fn push_blocks_events(events: &mut Vec<Event>, bs: &Vec<Block>)
    ensures
        event_views(final(events)@) == event_views(old(events)@) + blocks_events(bs@),
    decreases bs, 1usize,
{
    let mut k: usize = 0;
    while k < bs.len()
        invariant
            k <= bs@.len(),
            event_views(events@) == event_views(old(events)@) + blocks_events(bs@.take(k as int)),
        decreases bs@.len() - k,
    {
        proof {
            assert(decreases_to!(bs => bs@));
            assert(decreases_to!(bs@ => bs@[k as int]));
        }
        push_block_events(events, &bs[k]);
        proof {
            let t = bs@.take(k + 1);
            assert(t.drop_last() =~= bs@.take(k as int));
            assert(t.last() == bs@[k as int]);
        }
        k += 1;
    }
    assert(bs@.take(bs@.len() as int) =~= bs@);
}

fn push_item_events(events: &mut Vec<Event>, item: &ListItem)
    ensures
        event_views(final(events)@) == event_views(old(events)@) + item_events(*item),
    decreases item, 0usize,
{
    let ghost o = event_views(events@);
    push_ev(events, Event::Start(Tag::Item));
    match item.task {
        Some(c) => push_ev(events, Event::TaskListMarker(c)),
        None => {},
    }
    proof {
        assert(decreases_to!(item => item.blocks));
    }
    push_blocks_events(events, &item.blocks);
    push_ev(events, Event::End(TagEnd::Item));
    assert(event_views(events@) =~= o + item_events(*item));
}

/// Walk a borrowed document into owned events (every payload is cloned).
/// Frontmatter produces no events.
pub fn events_from_document(doc: &Document) -> (r: Vec<Event>)
    ensures
        event_views(r@) == blocks_events(doc.blocks@),
{
    let mut events: Vec<Event> = Vec::new();
    assert(event_views(events@) =~= Seq::<EventV>::empty());
    push_blocks_events(&mut events, &doc.blocks);
    assert(Seq::<EventV>::empty() + blocks_events(doc.blocks@) =~= blocks_events(doc.blocks@));
    events
}

// ---------------------------------------------------------------------------
// Parser: owned pull stream
// ---------------------------------------------------------------------------

/// Pull stream of [`Event`]s over an owned [`Document`]: construction
/// walks the document once into owned events; pulling hands them out in
/// order.
pub struct Parser {
    /// The events not yet pulled, last one first.
    pending: Vec<Event>,
}

/// The views of `s` read from its end to its start.
pub open spec fn reversed_views(s: Seq<Event>) -> Seq<EventV> {
    Seq::new(s.len(), |i: int| s[s.len() - 1 - i]@)
}

impl Parser {
    /// The events not yet pulled, in the order they will come out.
    pub closed spec fn remaining(&self) -> Seq<EventV> {
        reversed_views(self.pending@)
    }

    /// Walk an owned document into a pull stream.
    pub fn new(doc: Document) -> (p: Self)
        ensures
            p.remaining() == blocks_events(doc.blocks@),
    {
        let mut events = events_from_document(&doc);
        let ghost all = event_views(events@);
        let mut pending: Vec<Event> = Vec::new();
        while events.len() > 0
            invariant
                all.len() == events@.len() + pending@.len(),
                forall|i: int| 0 <= i < events@.len() ==> #[trigger] events@[i]@ == all[i],
                forall|i: int|
                    0 <= i < pending@.len() ==> #[trigger] pending@[i]@ == all[all.len() - 1 - i],
            decreases events@.len(),
        {
            let e = events.pop().unwrap();
            pending.push(e);
        }
        let p = Parser { pending };
        assert(p.remaining() =~= all);
        p
    }

    /// Remaining event count.
    pub fn len(&self) -> (n: usize)
        ensures
            n == self.remaining().len(),
    {
        self.pending.len()
    }

    /// True when no events remain.
    pub fn is_empty(&self) -> (r: bool)
        ensures
            r == (self.remaining().len() == 0),
    {
        self.pending.len() == 0
    }

    /// The next event, in document order; `None` once all were pulled.
    pub fn next(&mut self) -> (r: Option<Event>)
        ensures
            old(self).remaining().len() == 0 ==> r is None && final(self).remaining() == old(
                self,
            ).remaining(),
            old(self).remaining().len() > 0 ==> (r matches Some(e) && e@ == old(self).remaining()[0]
                && final(self).remaining() == old(self).remaining().drop_first()),
    {
        let r = self.pending.pop();
        assert(self.remaining() =~= old(self).remaining().drop_first() || old(self).remaining().len() == 0);
        r
    }

    /// Every event not yet pulled, in order; the parser is consumed.
    pub fn collect(self) -> (r: Vec<Event>)
        ensures
            event_views(r@) == self.remaining(),
    {
        let mut pending = self.pending;
        let ghost all = reversed_views(pending@);
        let mut out: Vec<Event> = Vec::new();
        while pending.len() > 0
            invariant
                event_views(out@) + reversed_views(pending@) == all,
            decreases pending@.len(),
        {
            let ghost before = pending@;
            let ghost out0 = out@;
            let e = pending.pop().unwrap();
            let ghost ev = e@;
            out.push(e);
            assert(event_views(out@) =~= event_views(out0).push(ev));
            assert(reversed_views(before) =~= seq![ev] + reversed_views(pending@));
            assert(event_views(out@) + reversed_views(pending@) =~= all);
        }
        assert(event_views(out@) =~= all);
        out
    }
}

/// Parse Markdown into a pull [`Parser`] with explicit [`crate::Options`];
/// it yields the events of the parsed document.
pub fn parse_stream(input: &str, options: crate::Options) -> (p: Parser)
    ensures
        p.remaining() == crate::ast::spec_events(input@, options.gfm),
        exists|bs: Seq<Block>, refs: crate::inline_parser::RV| #[trigger] crate::ast::parses_to(input@, options.gfm, bs, refs)
            && crate::stream_law::code_ok_all(bs) && p.remaining() == blocks_events(bs),
{
    let doc = crate::ast::parse(input, options);
    let ghost bs = doc.blocks@;
    let ghost refs = crate::inline_parser::refs_view(doc.references);
    let p = Parser::new(doc);
    assert(crate::ast::parses_to(input@, options.gfm, bs, refs) && crate::stream_law::code_ok_all(bs) && p.remaining() == blocks_events(bs));
    p
}

/// Collect the event stream for `input` into a `Vec`: everything the
/// parser of [`parse_stream`] yields, in order.
pub fn collect_events(input: &str, options: crate::Options) -> (r: Vec<Event>)
    ensures
        event_views(r@) == crate::ast::spec_events(input@, options.gfm),
        exists|bs: Seq<Block>, refs: crate::inline_parser::RV| #[trigger] crate::ast::parses_to(input@, options.gfm, bs, refs)
            && crate::stream_law::code_ok_all(bs) && event_views(r@) == blocks_events(bs),
{
    let p = parse_stream(input, options);
    let ghost pr = choose|bs: Seq<Block>, refs: crate::inline_parser::RV| #[trigger] crate::ast::parses_to(input@, options.gfm, bs, refs)
        && crate::stream_law::code_ok_all(bs) && p.remaining() == blocks_events(bs);
    let r = p.collect();
    assert(crate::ast::parses_to(input@, options.gfm, pr.0, pr.1) && crate::stream_law::code_ok_all(pr.0) && event_views(r@) == blocks_events(pr.0));
    r
}

} // verus!
