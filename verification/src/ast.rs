#![verifier::loop_isolation(false)]

//! Public AST: an owned tree (`Vec`/`Box`, all `String`s) covering
//! paragraphs, ATX and setext headings, blockquotes, tight/loose lists with
//! task markers, indented and fenced code, thematic breaks, pipe tables
//! with alignments, verbatim HTML blocks, a frontmatter attachment point,
//! and the collected link reference definitions.
//!
//! Lossless-leaning, not lossless: delimiter characters (`*` vs `_`), link
//! reference styles, heading marker kinds, list markers, fence characters
//! and autolink forms are retained where cheap.

use vstd::prelude::*;
use crate::frontmatter::Frontmatter;
use crate::inline_parser::{InlineElement, RefDefs, RV, refs_view};
use crate::html_escape::{push_escaped, spec_clean_url, spec_escape_html};
use crate::inline_parser::{push_clean_href, push_escaped_string, push_string, string_nonempty};
use crate::stream::{EventV, TagEnd, TagV};
use crate::highlight::SyntaxHighlighter;
use crate::text::{chars_of, push_decimal, push_str, push_vec, spec_decimal, string_of};
use crate::markdown_to_html::{MB, mb_view, mbs_view, items_view, lines_view, rows_view, lemma_mbs_view_props, lemma_items_view_props};
pub use crate::ast_markdown::render_markdown;

verus! {

broadcast use vstd::string::group_string_axioms;

// ---------------------------------------------------------------------------
// Document and blocks
// ---------------------------------------------------------------------------

/// A parsed Markdown document: block tree plus metadata. `references`
/// holds the link reference definitions (document-wide); `frontmatter` a
/// leading `---`/`+++` block when present, which never renders into HTML.
pub struct Document {
    /// Top-level blocks in document order.
    pub blocks: Vec<Block>,
    /// Collected link reference definitions.
    pub references: RefDefs,
    /// Leading metadata block, when the source had one.
    pub frontmatter: Option<Frontmatter>,
}

/// A block-level node. Nesting goes through `Vec` (and `Box` for the
/// large table variant).
#[derive(Debug, PartialEq)]
pub enum Block {
    /// One or more source lines forming a paragraph.
    Paragraph(Vec<Inline>),
    /// ATX (`#`) or setext (`===` / `---`) heading.
    Heading(Heading),
    /// Thematic break (`***`, `---`, `___` and spaced variants).
    ThematicBreak(ThematicBreak),
    /// Indented or fenced code block (verbatim lines).
    CodeBlock(CodeBlock),
    /// Raw HTML block lines, passed through verbatim.
    HtmlBlock(Vec<String>),
    /// `>` quote with nested blocks.
    BlockQuote(Vec<Block>),
    /// Ordered or bulleted list.
    List(List),
    /// Pipe table.
    Table(Box<Table>),
}

/// A heading: level 1-6, inline content, and how it was written.
#[derive(Debug, PartialEq)]
pub struct Heading {
    /// Heading level (1-6).
    pub level: u8,
    /// Inline content.
    pub content: Vec<Inline>,
    /// ATX vs setext marker retention.
    pub kind: HeadingKind,
}

/// How a heading was written in source.
#[derive(Debug, Clone, Copy, PartialEq, Eq, Structural)]
pub enum HeadingKind {
    /// `#` heading; `closing` notes a stripped closing `###` run.
    Atx { closing: bool },
    /// Setext underline; `marker` is `'='` (level 1) or `'-'` (level 2).
    Setext { marker: char },
}

/// A thematic break; `marker` is the repeated character (`-`, `_`, `*`).
#[derive(Debug, Clone, Copy, PartialEq, Eq, Structural)]
pub struct ThematicBreak {
    /// The repeated marker character.
    pub marker: char,
}

/// A code block: verbatim lines plus kind/info retention.
#[derive(Debug, PartialEq)]
pub struct CodeBlock {
    /// Indented vs fenced (with fence character/length).
    pub kind: CodeBlockKind,
    /// Fenced info string as written (empty for indented code).
    pub info: String,
    /// Verbatim content lines (opening indent/fence excluded).
    pub lines: Vec<String>,
}

/// Indented code vs fenced code.
#[derive(Debug, Clone, Copy, PartialEq, Eq, Structural)]
pub enum CodeBlockKind {
    /// Four-space (or tab-stop) indented code.
    Indented,
    /// Fenced code with the opening fence retained.
    Fenced { fence_char: char, fence_len: usize },
}

/// A list: marker retention plus tight/loose and per-item task state.
#[derive(Debug, PartialEq)]
pub struct List {
    /// Ordered (`1.`) vs bulleted (`-`).
    pub ordered: bool,
    /// Bullet character for unordered lists (`-`, `+`, `*`).
    pub bullet: char,
    /// Delimiter for ordered lists (`.` or `)`).
    pub delimiter: char,
    /// Start number for ordered lists.
    pub start: u32,
    /// Tight (paragraphs unwrap) vs loose (paragraphs keep `<p>`).
    pub tight: bool,
    /// Items in order.
    pub items: Vec<ListItem>,
}

/// One list item; `task` is `Some(checked)` for a `[ ]`/`[x]` task item.
#[derive(Debug, PartialEq)]
pub struct ListItem {
    /// Task state (`Some(true)` = `[x]`/`[X]`, `Some(false)` = `[ ]`).
    pub task: Option<bool>,
    /// Item content blocks.
    pub blocks: Vec<Block>,
}

/// A pipe table.
#[derive(Debug, PartialEq)]
pub struct Table {
    /// Header cells.
    pub header: Vec<TableCell>,
    /// Per-column alignment from the delimiter row.
    pub alignments: Vec<Alignment>,
    /// Body rows.
    pub rows: Vec<Vec<TableCell>>,
}

/// One table cell: inline content.
#[derive(Debug, PartialEq)]
pub struct TableCell {
    /// Inline content of the cell.
    pub content: Vec<Inline>,
}

/// Column alignment from the delimiter row.
#[derive(Debug, Clone, Copy, PartialEq, Eq, Structural)]
pub enum Alignment {
    /// No alignment markers (`---`).
    Unset,
    /// `:--`.
    Left,
    /// `:-:`.
    Center,
    /// `--:`.
    Right,
}

// ---------------------------------------------------------------------------
// Inlines
// ---------------------------------------------------------------------------

/// An inline-level node. Large variants (links, images) are boxed.
#[derive(Debug, PartialEq)]
pub enum Inline {
    /// Literal text (entities decoded, escapes resolved).
    Text(String),
    /// `*...*` or `_..._`; `delimiter` retains which character formed it.
    Emphasis { delimiter: char, content: Vec<Inline> },
    /// `**...**` or `__...__`; `delimiter` retains `*` vs `_`.
    Strong { delimiter: char, content: Vec<Inline> },
    /// `~~...~~`.
    Strikethrough(Vec<Inline>),
    /// Code span content (backticks stripped, line endings spaced).
    Code(String),
    /// A link.
    Link(Box<Link>),
    /// An image (`alt` is flattened text).
    Image(Box<Image>),
    /// `<uri>` / `<email>` autolinks and bare URLs/emails.
    Autolink(Autolink),
    /// Inline raw HTML, passed through verbatim.
    RawHtml(String),
    /// Two-space / backslash line ending.
    HardBreak,
    /// Plain line ending inside a paragraph.
    SoftBreak,
}

/// A link with its written style retained.
#[derive(Debug, PartialEq)]
pub struct Link {
    /// Link text inlines.
    pub text: Vec<Inline>,
    /// Destination (entity-decoded; percent-encoded at HTML render time).
    pub url: String,
    /// Optional title.
    pub title: Option<String>,
    /// How the link was written.
    pub style: LinkStyle,
}

/// How a link/image was written in source.
#[derive(Debug, PartialEq)]
pub enum LinkStyle {
    /// `[text](url "title")`.
    Inline,
    /// `[text][label]` (raw label retained verbatim).
    Reference(String),
    /// `[text][]`.
    Collapsed,
    /// `[text]`.
    Shortcut,
}

/// An image with its written style retained.
#[derive(Debug, PartialEq)]
pub struct Image {
    /// Flattened alt text.
    pub alt: String,
    /// Destination.
    pub url: String,
    /// Optional title.
    pub title: Option<String>,
    /// How the image was written.
    pub style: LinkStyle,
}

/// An autolink: `<uri>` / `<email>` (`bare: false`) or a bare URL/email
/// (`bare: true`). `url` is the href form (`mailto:`-prefixed for
/// emails); `text` is the visible form.
#[derive(Debug, PartialEq)]
pub struct Autolink {
    /// Href form of the target.
    pub url: String,
    /// Visible text.
    pub text: String,
    /// Whether this was a bare URL/email (no angle brackets).
    pub bare: bool,
}

// ---------------------------------------------------------------------------
// Structure facts for walkers
// ---------------------------------------------------------------------------

/// A quoted child is smaller than its quote.
pub proof fn lemma_quote_child(b: Block, k: int)
    requires
        b is BlockQuote,
        0 <= k < b->BlockQuote_0@.len(),
    ensures
        decreases_to!(b => b->BlockQuote_0@[k]),
{
    let children = b->BlockQuote_0;
    assert(decreases_to!(b => children));
    assert(decreases_to!(children => children@));
    assert(decreases_to!(children@ => children@[k]));
}

/// A block of a list item is smaller than its list.
pub proof fn lemma_item_child(b: Block, q: int, k: int)
    requires
        b is List,
        0 <= q < b->List_0.items@.len(),
        0 <= k < b->List_0.items@[q].blocks@.len(),
    ensures
        decreases_to!(b => b->List_0.items@[q].blocks@[k]),
{
    let list = b->List_0;
    assert(decreases_to!(b => list));
    assert(decreases_to!(list => list.items));
    assert(decreases_to!(list.items => list.items@));
    assert(decreases_to!(list.items@ => list.items@[q]));
    assert(decreases_to!(list.items@[q] => list.items@[q].blocks));
    assert(decreases_to!(list.items@[q].blocks => list.items@[q].blocks@));
    assert(decreases_to!(list.items@[q].blocks@ => list.items@[q].blocks@[k]));
}

// ---------------------------------------------------------------------------
// Plain text
// ---------------------------------------------------------------------------

/// Plain text of one inline: text and code verbatim, emphasis/links by
/// their content, images by their alt text, autolinks by their visible
/// text, raw HTML verbatim, breaks as `\n`.
pub open spec fn inline_plain(i: Inline) -> Seq<char>
    decreases i,
{
    match i {
        Inline::Text(t) => t@,
        Inline::Emphasis { content, .. } => list_plain(content@),
        Inline::Strong { content, .. } => list_plain(content@),
        Inline::Strikethrough(content) => list_plain(content@),
        Inline::Code(c) => c@,
        Inline::Link(link) => list_plain(link.text@),
        Inline::Image(img) => img.alt@,
        Inline::Autolink(a) => a.text@,
        Inline::RawHtml(h) => h@,
        Inline::HardBreak => seq!['\n'],
        Inline::SoftBreak => seq!['\n'],
    }
}

/// Plain text of a list of inlines, concatenated.
pub open spec fn list_plain(s: Seq<Inline>) -> Seq<char>
    decreases s,
{
    if s.len() == 0 {
        Seq::empty()
    } else {
        list_plain(s.drop_last()) + inline_plain(s.last())
    }
}

fn push_string_chars(out: &mut Vec<char>, s: &String)
    ensures
        final(out)@ == old(out)@ + s@,
{
    let v = chars_of(s.as_str());
    push_vec(out, &v);
}

fn push_inline_plain(out: &mut Vec<char>, i: &Inline)
    ensures
        final(out)@ == old(out)@ + inline_plain(*i),
    decreases i,
{
    match i {
        Inline::Text(t) => push_string_chars(out, t),
        Inline::Emphasis { content, .. } => push_list_plain(out, content),
        Inline::Strong { content, .. } => push_list_plain(out, content),
        Inline::Strikethrough(content) => push_list_plain(out, content),
        Inline::Code(c) => push_string_chars(out, c),
        Inline::Link(link) => {
            proof {
                assert(decreases_to!(i => link));
            }
            push_list_plain(out, &link.text)
        },
        Inline::Image(img) => push_string_chars(out, &img.alt),
        Inline::Autolink(a) => push_string_chars(out, &a.text),
        Inline::RawHtml(h) => push_string_chars(out, h),
        Inline::HardBreak => out.push('\n'),
        Inline::SoftBreak => out.push('\n'),
    }
}

fn push_list_plain(out: &mut Vec<char>, s: &Vec<Inline>)
    ensures
        final(out)@ == old(out)@ + list_plain(s@),
    decreases s,
{
    let mut k: usize = 0;
    while k < s.len()
        invariant
            k <= s@.len(),
            out@ == old(out)@ + list_plain(s@.take(k as int)),
        decreases s@.len() - k,
    {
        proof {
            assert(decreases_to!(s => s@));
            assert(decreases_to!(s@ => s@[k as int]));
        }
        push_inline_plain(out, &s[k]);
        proof {
            assert(s@.take(k + 1).drop_last() =~= s@.take(k as int));
            assert(s@.take(k + 1).last() == s@[k as int]);
        }
        k += 1;
    }
    assert(s@.take(s@.len() as int) =~= s@);
}

/// Flatten inlines to plain text (links/images/autolinks to their visible
/// text, code to its content, breaks to `\n`). Used for tables of
/// contents, lint messages and autolink display text.
pub fn plain_text(inlines: &[Inline]) -> (r: String)
    ensures
        r@ == list_plain(inlines@),
{
    let mut out: Vec<char> = Vec::new();
    let mut k: usize = 0;
    while k < inlines.len()
        invariant
            k <= inlines@.len(),
            out@ == list_plain(inlines@.take(k as int)),
        decreases inlines@.len() - k,
    {
        push_inline_plain(&mut out, &inlines[k]);
        proof {
            assert(inlines@.take(k + 1).drop_last() =~= inlines@.take(k as int));
            assert(inlines@.take(k + 1).last() == inlines@[k as int]);
        }
        k += 1;
    }
    assert(inlines@.take(inlines@.len() as int) =~= inlines@);
    string_of(&out)
}

// ---------------------------------------------------------------------------
// Parsing
// ---------------------------------------------------------------------------

fn clone_title(t: &Option<String>) -> (r: Option<String>)
    ensures
        r == *t || (r is Some && t is Some && r->0@ == t->0@),
        r is None <==> t is None,
{
    match t {
        Some(x) => Some(x.clone()),
        None => None,
    }
}

/// One parsed inline element as an AST inline: bold and italic become
/// strong and emphasis (written with `*`), links and images keep their
/// destinations and titles in inline style. The HTML is unchanged.
fn convert_inline(e: &InlineElement) -> (r: Inline)
    ensures
        inline_html(r) == crate::inline_parser::elem_html(*e),
        crate::stream::inline_events(r) == el_events(crate::inline_parser::el_view(*e)),
    decreases e,
{
    match e {
        InlineElement::Text(s) => Inline::Text(s.clone()),
        InlineElement::Bold(c) => {
            let content = convert_inlines(c);
            Inline::Strong { delimiter: '*', content }
        },
        InlineElement::Italic(c) => {
            let content = convert_inlines(c);
            Inline::Emphasis { delimiter: '*', content }
        },
        InlineElement::Code(s) => Inline::Code(s.clone()),
        InlineElement::Link { text, url, title } => {
            let t = convert_inlines(text);
            let r = Inline::Link(
                Box::new(
                    Link { text: t, url: url.clone(), title: clone_title(title), style: LinkStyle::Inline },
                ),
            );
            assert(inline_html(r) =~= crate::inline_parser::elem_html(*e));
            r
        },
        InlineElement::Image { alt, url, title } => Inline::Image(
            Box::new(
                Image { alt: alt.clone(), url: url.clone(), title: clone_title(title), style: LinkStyle::Inline },
            ),
        ),
        InlineElement::RawHtml(s) => Inline::RawHtml(s.clone()),
        InlineElement::HardBreak => Inline::HardBreak,
        InlineElement::SoftBreak => Inline::SoftBreak,
    }
}

fn convert_inlines(v: &Vec<InlineElement>) -> (r: Vec<Inline>)
    ensures
        list_inline_html(r@) == crate::inline_parser::list_html(v@),
        crate::stream::inlines_events(r@) == els_events(crate::inline_parser::els_view(v@)),
    decreases v,
{
    let mut r: Vec<Inline> = Vec::new();
    let mut k: usize = 0;
    while k < v.len()
        invariant
            k <= v@.len(),
            r@.len() == k,
            list_inline_html(r@) == crate::inline_parser::list_html(v@.take(k as int)),
            crate::stream::inlines_events(r@) == els_events(crate::inline_parser::els_view(v@.take(k as int))),
        decreases v@.len() - k,
    {
        proof {
            assert(decreases_to!(v => v@));
            assert(decreases_to!(v@ => v@[k as int]));
        }
        let x = convert_inline(&v[k]);
        let ghost before = r@;
        r.push(x);
        proof {
            assert(r@.drop_last() =~= before);
            assert(v@.take(k + 1).drop_last() =~= v@.take(k as int));
            assert(v@.take(k + 1).last() == v@[k as int]);
            assert(crate::inline_parser::els_view(v@.take(k + 1)).drop_last() =~= crate::inline_parser::els_view(v@.take(k as int)));
        }
        k += 1;
    }
    assert(v@.take(v@.len() as int) =~= v@);
    r
}

// ---------------------------------------------------------------------------
// Agreement with the converter's own rendering
// ---------------------------------------------------------------------------

/// The inline HTML of a parsed paragraph's lines.
pub open spec fn md_para_html(lines: Seq<Seq<char>>, refs: RV) -> Seq<char> {
    crate::inline_parser::spec_inline_html(crate::html_to_markdown::join_nl(lines), refs)
}

/// Parsed blocks where no loose list item is a single paragraph with no
/// inline content (the AST renders such an item as an empty `<li>`).
pub open spec fn md_ok_block(b: MB, refs: RV) -> bool
    decreases b, 0nat,
{
    match b {
        MB::BlockQuote(c) => md_ok_blocks(c, refs),
        MB::List { tight, items, .. } => md_ok_items(items, tight, refs),
        _ => true,
    }
}

pub open spec fn md_ok_blocks(bs: Seq<MB>, refs: RV) -> bool
    decreases bs, 0nat,
{
    if bs.len() == 0 {
        true
    } else {
        md_ok_blocks(bs.drop_last(), refs) && md_ok_block(bs.last(), refs)
    }
}

pub open spec fn md_ok_items(items: Seq<Seq<MB>>, tight: bool, refs: RV) -> bool
    decreases items, 0nat,
{
    if items.len() == 0 {
        true
    } else {
        md_ok_items(items.drop_last(), tight, refs) && md_ok_item(items.last(), tight, refs)
    }
}

pub open spec fn md_ok_item(item: Seq<MB>, tight: bool, refs: RV) -> bool
    decreases item, 1nat,
{
    &&& (tight || !(item.len() == 1 && (item[0] matches MB::Paragraph(lines)
        && md_para_html(lines, refs).len() == 0)))
    &&& md_ok_blocks(item, refs)
}

proof fn lemma_md_ok_blocks_elem(bs: Seq<MB>, refs: RV, k: int)
    requires
        md_ok_blocks(bs, refs),
        0 <= k < bs.len(),
    ensures
        md_ok_block(bs[k], refs),
    decreases bs.len(),
{
    if k < bs.len() - 1 {
        lemma_md_ok_blocks_elem(bs.drop_last(), refs, k);
    }
}

proof fn lemma_md_ok_items_elem(items: Seq<Seq<MB>>, tight: bool, refs: RV, k: int)
    requires
        md_ok_items(items, tight, refs),
        0 <= k < items.len(),
    ensures
        md_ok_item(items[k], tight, refs),
    decreases items.len(),
{
    if k < items.len() - 1 {
        lemma_md_ok_items_elem(items.drop_last(), tight, refs, k);
    }
}

/// A converted block agrees with the parsed block it came from: same
/// HTML (where the parsed tree is `md_ok`), a paragraph for a paragraph,
/// with the same inline HTML.
pub open spec fn agrees(a: Block, m: MB, refs: RV) -> bool {
    &&& (md_ok_block(m, refs) ==> block_html(a) == crate::markdown_to_html::md_block_html(m, refs))
    &&& (a is Paragraph <==> m is Paragraph)
    &&& (m matches MB::Paragraph(lines) ==> list_inline_html(a->Paragraph_0@) == md_para_html(
        lines,
        refs,
    ))
}

/// Converted blocks that agree one by one with parsed blocks.
pub open spec fn blocks_agree(abs: Seq<Block>, mbs: Seq<MB>, refs: RV) -> bool {
    abs.len() == mbs.len() && forall|k: int| 0 <= k < abs.len() ==> #[trigger] agrees(abs[k], mbs[k], refs)
}

proof fn lemma_code_lines(ss: Seq<String>, ls: Seq<Seq<char>>)
    requires
        ss.len() == ls.len(),
        forall|k: int| 0 <= k < ls.len() ==> #[trigger] ss[k]@ == ls[k],
    ensures
        code_lines_html(ss) == crate::markdown_to_html::md_code_lines(ls),
        raw_lines_html(ss) == crate::markdown_to_html::md_raw_lines(ls),
    decreases ls.len(),
{
    reveal_strlit("\n");
    assert("\n"@ =~= seq!['\n']);
    if ls.len() > 0 {
        lemma_code_lines(ss.drop_last(), ls.drop_last());
        assert(ss.last()@ == ls.last());
    }
}

proof fn lemma_line_events(ss: Seq<String>, ls: Seq<Seq<char>>)
    requires
        ss.len() == ls.len(),
        forall|k: int| 0 <= k < ls.len() ==> #[trigger] ss[k]@ == ls[k],
    ensures
        crate::stream::html_line_events(ss) == md_html_line_events(ls),
        crate::stream::code_text(ss) == crate::highlight::spec_code_text(ls),
    decreases ls.len(),
{
    assert(crate::highlight::views(ss) =~= ls);
    if ls.len() > 0 {
        lemma_line_events(ss.drop_last(), ls.drop_last());
        assert(ss.last()@ == ls.last());
    }
}

/// Blocks converted one by one from parsed blocks render as the parsed
/// blocks do: the AST's HTML equals the converter's.
pub proof fn lemma_blocks_agree(abs: Seq<Block>, mbs: Seq<MB>, refs: RV)
    requires
        abs.len() == mbs.len(),
        forall|k: int| 0 <= k < abs.len() ==> #[trigger] agrees(abs[k], mbs[k], refs),
        md_ok_blocks(mbs, refs),
    ensures
        blocks_html(abs) == crate::markdown_to_html::md_blocks_html(mbs, refs),
    decreases abs.len(),
{
    if abs.len() > 0 {
        lemma_md_ok_blocks_elem(mbs, refs, mbs.len() - 1);
        assert forall|k: int| 0 <= k < abs.drop_last().len() implies #[trigger] agrees(abs.drop_last()[k], mbs.drop_last()[k], refs) by {
            assert(agrees(abs[k], mbs[k], refs));
        }
        lemma_blocks_agree(abs.drop_last(), mbs.drop_last(), refs);
        assert(agrees(abs[abs.len() - 1], mbs[mbs.len() - 1], refs));
    }
}

proof fn lemma_tight_agree(cur: Seq<char>, abs: Seq<Block>, mbs: Seq<MB>, i: int, first: bool, refs: RV)
    requires
        abs.len() == mbs.len(),
        0 <= i <= abs.len(),
        forall|k: int| 0 <= k < abs.len() ==> #[trigger] agrees(abs[k], mbs[k], refs),
        md_ok_blocks(mbs, refs),
    ensures
        tight_from(cur, abs, i, first, Seq::empty()) == crate::markdown_to_html::md_tight_from(cur, mbs, i, refs),
    decreases abs.len() - i,
{
    if i < abs.len() {
        assert(agrees(abs[i], mbs[i], refs));
        lemma_md_ok_blocks_elem(mbs, refs, i);
        match abs[i] {
            Block::Paragraph(inl) => {
                let c1 = if i > 0 && !ends_nl(cur) {
                    cur.push('\n')
                } else {
                    cur
                };
                assert(c1 + Seq::<char>::empty() =~= c1);
                lemma_tight_agree(c1 + list_inline_html(inl@), abs, mbs, i + 1, false, refs);
            },
            _ => {
                let c1 = if !ends_nl(cur) {
                    cur.push('\n')
                } else {
                    cur
                };
                lemma_tight_agree(c1 + block_html(abs[i]), abs, mbs, i + 1, first, refs);
            },
        }
    }
}

proof fn lemma_loose_agree(abs: Seq<Block>, i: int, rendered_first: bool)
    requires
        0 <= i <= abs.len(),
    ensures
        loose_from(abs, i, rendered_first, Seq::empty()) == blocks_html(abs.skip(i)),
    decreases abs.len() - i,
{
    if i < abs.len() {
        lemma_loose_agree(abs, i + 1, true);
        lemma_loose_agree(abs, i + 1, rendered_first);
        lemma_blocks_html_front(abs.skip(i));
        assert(abs.skip(i).drop_first() =~= abs.skip(i + 1));
        match abs[i] {
            Block::Paragraph(inl) => {
                assert("<p>"@ + Seq::<char>::empty() =~= "<p>"@);
            },
            _ => {},
        }
    } else {
        assert(abs.skip(i) =~= Seq::<Block>::empty());
    }
}

proof fn lemma_blocks_html_front(bs: Seq<Block>)
    requires
        bs.len() > 0,
    ensures
        blocks_html(bs) == block_html(bs[0]) + blocks_html(bs.drop_first()),
    decreases bs.len(),
{
    if bs.len() > 1 {
        lemma_blocks_html_front(bs.drop_last());
        assert(bs.drop_last().drop_first() =~= bs.drop_first().drop_last());
        assert(bs.drop_first().last() == bs.last());
    } else {
        assert(bs.drop_first() =~= Seq::<Block>::empty());
        assert(bs.drop_last() =~= Seq::<Block>::empty());
    }
}

/// A converted row's cells: the parsed texts' inline HTML, cut or padded
/// to the header's width.
pub open spec fn cells_agree(cells: Seq<TableCell>, texts: Seq<Seq<char>>, width: int, refs: RV) -> bool {
    &&& cells.len() == width
    &&& forall|k: int|
        0 <= k < width ==> list_inline_html(#[trigger] cells[k].content@)
            == crate::inline_parser::spec_inline_html(
            if k < texts.len() {
                texts[k]
            } else {
                Seq::empty()
            },
            refs,
        )
}

pub open spec fn aligns_agree(als: Seq<Alignment>, aligns: Seq<crate::markdown_to_html::Align>) -> bool {
    &&& als.len() == aligns.len()
    &&& forall|k: int| 0 <= k < als.len() ==> #[trigger] als[k] == spec_alignment_of(aligns[k])
}

#[verifier::spinoff_prover]
#[verifier::rlimit(40)]
proof fn lemma_cells_agree(tag: Seq<char>, cells: Seq<TableCell>, texts: Seq<Seq<char>>, width: int, als: Seq<Alignment>, aligns: Seq<crate::markdown_to_html::Align>, refs: RV, n: int)
    requires
        cells_agree(cells, texts, width, refs),
        aligns_agree(als, aligns),
        0 <= n <= width,
    ensures
        cells_html(tag, cells.take(n), als) == crate::markdown_to_html::md_row_cells(tag, texts, aligns, n, refs),
    decreases n,
{
    reveal_strlit("<");
    reveal_strlit(">");
    assert("<"@ =~= seq!['<']);
    assert(">"@ =~= seq!['>']);
    if n > 0 {
        lemma_cells_agree(tag, cells, texts, width, als, aligns, refs, n - 1);
        assert(cells.take(n).drop_last() =~= cells.take(n - 1));
        assert(cells.take(n).last() == cells[n - 1]);
        let a = crate::markdown_to_html::md_align_at(aligns, n - 1);
        assert(align_of(als, n - 1) == spec_alignment_of(a));
        assert(align_attr(spec_alignment_of(a)) == crate::markdown_to_html::md_align_attr(a));
    } else {
        assert(cells.take(0) =~= Seq::<TableCell>::empty());
    }
}

proof fn lemma_rows_agree(out_rows: Seq<Vec<TableCell>>, rows: Seq<Seq<Seq<char>>>, width: int, als: Seq<Alignment>, aligns: Seq<crate::markdown_to_html::Align>, refs: RV)
    requires
        out_rows.len() == rows.len(),
        forall|q: int| 0 <= q < rows.len() ==> cells_agree(#[trigger] out_rows[q]@, rows[q], width, refs),
        aligns_agree(als, aligns),
        0 <= width,
    ensures
        rows_html(out_rows, als) == crate::markdown_to_html::md_body_rows(rows, aligns, width, refs),
    decreases rows.len(),
{
    if rows.len() > 0 {
        assert forall|q: int| 0 <= q < rows.drop_last().len() implies cells_agree(#[trigger] out_rows.drop_last()[q]@, rows.drop_last()[q], width, refs) by {
            assert(cells_agree(out_rows[q]@, rows[q], width, refs));
        }
        lemma_rows_agree(out_rows.drop_last(), rows.drop_last(), width, als, aligns, refs);
        let last = out_rows.last()@;
        assert(cells_agree(last, rows.last(), width, refs));
        lemma_cells_agree("td"@, last, rows.last(), width, als, aligns, refs, width);
        assert(last.take(width) =~= last);
    }
}

/// A converted list item agrees with the parsed item: no task state and,
/// tight or loose, the same HTML where the parsed item is `md_ok`.
pub open spec fn item_agrees(a: ListItem, m: Seq<MB>, refs: RV) -> bool {
    &&& a.task is None
    &&& (md_ok_item(m, true, refs) ==> item_html(a, true) == crate::markdown_to_html::md_item_html(m, true, refs))
    &&& (md_ok_item(m, false, refs) ==> item_html(a, false) == crate::markdown_to_html::md_item_html(m, false, refs))
}

proof fn lemma_items_agree(ais: Seq<ListItem>, mis: Seq<Seq<MB>>, tight: bool, refs: RV)
    requires
        ais.len() == mis.len(),
        forall|k: int| 0 <= k < ais.len() ==> #[trigger] item_agrees(ais[k], mis[k], refs),
        md_ok_items(mis, tight, refs),
    ensures
        items_html(ais, tight) == crate::markdown_to_html::md_items_html(mis, tight, refs),
    decreases ais.len(),
{
    if ais.len() > 0 {
        assert forall|k: int| 0 <= k < ais.drop_last().len() implies #[trigger] item_agrees(ais.drop_last()[k], mis.drop_last()[k], refs) by {
            assert(item_agrees(ais[k], mis[k], refs));
        }
        lemma_items_agree(ais.drop_last(), mis.drop_last(), tight, refs);
        assert(item_agrees(ais[ais.len() - 1], mis[mis.len() - 1], refs));
    }
}

proof fn lemma_item_agree(a: ListItem, m: Seq<MB>, refs: RV)
    requires
        a.task is None,
        a.blocks@.len() == m.len(),
        forall|k: int| 0 <= k < m.len() ==> #[trigger] agrees(a.blocks@[k], m[k], refs),
    ensures
        item_agrees(a, m, refs),
{
    reveal_strlit("<li>");
    let abs = a.blocks@;
    assert(task_checkbox(None) =~= Seq::<char>::empty());
    assert(task_checkbox_bare(None) =~= Seq::<char>::empty());
    if md_ok_item(m, true, refs) {
        lemma_tight_agree("<li>"@, abs, m, 0, true, refs);
        assert(item_html(a, true) =~= crate::markdown_to_html::md_item_html(m, true, refs));
    }
    if md_ok_item(m, false, refs) {
        if abs.len() == 0 {
            assert(item_html(a, false) == crate::markdown_to_html::md_item_html(m, false, refs));
        } else {
            if empty_item(a) {
                assert(agrees(abs[0], m[0], refs));
                assert(list_inline_html(abs[0]->Paragraph_0@) =~= Seq::<char>::empty());
                assert(false);
            }
            lemma_loose_agree(abs, 0, false);
            assert(abs.skip(0) =~= abs);
            lemma_blocks_agree(abs, m, refs);
            assert(item_html(a, false) == crate::markdown_to_html::md_item_html(m, false, refs));
        }
    }
}

/// A GFM task marker opening `text` (`[ ]`, `[x]` or `[X]`, then a space
/// or tab): whether it is checked, and the text after the marker and the
/// blanks that follow it.
pub open spec fn spec_task_prefix(text: Seq<char>) -> Option<(bool, Seq<char>)> {
    if text.len() >= 4 && text[0] == '[' && text[2] == ']' && (text[3] == ' ' || text[3] == '\t') && (
    text[1] == ' ' || text[1] == 'x' || text[1] == 'X') {
        Some((text[1] != ' ', text.skip(crate::text::lead_end(text, 1, 4))))
    } else {
        None
    }
}

/// The task marker of a parsed item: that of its first block, where it is
/// a paragraph.
pub open spec fn item_task(m: Seq<MB>) -> Option<(bool, Seq<char>)> {
    if m.len() > 0 && m[0] is Paragraph {
        spec_task_prefix(crate::html_to_markdown::join_nl(m[0]->Paragraph_0))
    } else {
        None
    }
}

/// With GFM, a converted block agrees with the parsed block as without
/// GFM, except inside lists: an item whose first paragraph opens with a
/// task marker carries the marker's state and drops the marker.
pub open spec fn agrees_gfm(a: Block, m: MB, refs: RV) -> bool
    decreases m, 1nat,
{
    match m {
        MB::BlockQuote(c) => a matches Block::BlockQuote(ab) && blocks_agree_gfm(ab@, c, refs),
        MB::List { ordered, start, tight, items, bullet, delimiter } => a matches Block::List(l) && {
            &&& l.ordered == ordered
            &&& l.start == start
            &&& l.tight == tight
            &&& l.bullet == bullet
            &&& l.delimiter == delimiter
            &&& items_agree_gfm(l.items@, items, refs)
        },
        _ => agrees(a, m, refs),
    }
}

/// Converted blocks that agree one by one, with GFM, with parsed blocks.
pub open spec fn blocks_agree_gfm(abs: Seq<Block>, ms: Seq<MB>, refs: RV) -> bool
    decreases ms, 0nat,
{
    if ms.len() == 0 {
        abs.len() == 0
    } else {
        abs.len() == ms.len() && blocks_agree_gfm(abs.drop_last(), ms.drop_last(), refs) && agrees_gfm(
            abs.last(),
            ms.last(),
            refs,
        )
    }
}

/// Converted items that agree one by one, with GFM, with parsed items.
pub open spec fn items_agree_gfm(ais: Seq<ListItem>, mis: Seq<Seq<MB>>, refs: RV) -> bool
    decreases mis, 0nat,
{
    if mis.len() == 0 {
        ais.len() == 0
    } else {
        ais.len() == mis.len() && items_agree_gfm(ais.drop_last(), mis.drop_last(), refs) && item_agrees_gfm(
            ais.last(),
            mis.last(),
            refs,
        )
    }
}

/// A converted item agrees, with GFM, with a parsed item.
pub open spec fn item_agrees_gfm(a: ListItem, m: Seq<MB>, refs: RV) -> bool
    decreases m, 1nat,
{
    match item_task(m) {
        Some((checked, rest)) => {
            &&& a.task == Some(checked)
            &&& a.blocks@.len() == m.len()
            &&& a.blocks@[0] matches Block::Paragraph(inl) && list_inline_html(inl@)
                == crate::inline_parser::spec_inline_html(rest, refs)
            &&& blocks_agree_gfm(a.blocks@.drop_first(), m.drop_first(), refs)
        },
        None => a.task is None && blocks_agree_gfm(a.blocks@, m, refs),
    }
}

proof fn lemma_blocks_agree_gfm(abs: Seq<Block>, ms: Seq<MB>, refs: RV)
    requires
        abs.len() == ms.len(),
        forall|k: int| 0 <= k < ms.len() ==> #[trigger] agrees_gfm(abs[k], ms[k], refs),
    ensures
        blocks_agree_gfm(abs, ms, refs),
    decreases ms.len(),
{
    if ms.len() > 0 {
        assert forall|k: int| 0 <= k < ms.drop_last().len() implies #[trigger] agrees_gfm(abs.drop_last()[k], ms.drop_last()[k], refs) by {
            assert(agrees_gfm(abs[k], ms[k], refs));
        }
        lemma_blocks_agree_gfm(abs.drop_last(), ms.drop_last(), refs);
        assert(agrees_gfm(abs[ms.len() - 1], ms[ms.len() - 1], refs));
    }
}

proof fn lemma_items_agree_gfm(ais: Seq<ListItem>, mis: Seq<Seq<MB>>, refs: RV)
    requires
        ais.len() == mis.len(),
        forall|k: int| 0 <= k < mis.len() ==> #[trigger] item_agrees_gfm(ais[k], mis[k], refs),
    ensures
        items_agree_gfm(ais, mis, refs),
    decreases mis.len(),
{
    if mis.len() > 0 {
        assert forall|k: int| 0 <= k < mis.drop_last().len() implies #[trigger] item_agrees_gfm(ais.drop_last()[k], mis.drop_last()[k], refs) by {
            assert(item_agrees_gfm(ais[k], mis[k], refs));
        }
        lemma_items_agree_gfm(ais.drop_last(), mis.drop_last(), refs);
        assert(item_agrees_gfm(ais[mis.len() - 1], mis[mis.len() - 1], refs));
    }
}

/// Events of a parsed inline element, as converted to the AST.
pub open spec fn el_events(e: crate::inline_parser::El) -> Seq<EventV>
    decreases e,
{
    match e {
        crate::inline_parser::El::Text(s) => seq![EventV::Text(s)],
        crate::inline_parser::El::Bold(c) => seq![EventV::Start(TagV::Strong)] + els_events(c)
            + seq![EventV::End(TagEnd::Strong)],
        crate::inline_parser::El::Italic(c) => seq![EventV::Start(TagV::Emphasis)] + els_events(c)
            + seq![EventV::End(TagEnd::Emphasis)],
        crate::inline_parser::El::Code(s) => seq![EventV::Code(s)],
        crate::inline_parser::El::Link { text, url, title } => seq![
            EventV::Start(TagV::Link { url, title }),
        ] + els_events(text) + seq![EventV::End(TagEnd::Link)],
        crate::inline_parser::El::Image { alt, url, title } => seq![
            EventV::Start(TagV::Image { alt, url, title }),
            EventV::End(TagEnd::Image),
        ],
        crate::inline_parser::El::RawHtml(s) => seq![EventV::InlineHtml(s)],
        crate::inline_parser::El::HardBreak => seq![EventV::HardBreak],
        crate::inline_parser::El::SoftBreak => seq![EventV::SoftBreak],
    }
}

pub open spec fn els_events(es: Seq<crate::inline_parser::El>) -> Seq<EventV>
    decreases es,
{
    if es.len() == 0 {
        Seq::empty()
    } else {
        els_events(es.drop_last()) + el_events(es.last())
    }
}

/// Events of the inline content of `s`.
pub open spec fn text_events(s: Seq<char>, refs: RV) -> Seq<EventV> {
    els_events(crate::inline_parser::spec_parse_inline_text(s, refs))
}

/// A paragraph's events around the inline content of `s`.
pub open spec fn para_events(s: Seq<char>, refs: RV) -> Seq<EventV> {
    seq![EventV::Start(TagV::Paragraph)] + text_events(s, refs) + seq![EventV::End(TagEnd::Paragraph)]
}

/// `Html` events of raw lines.
pub open spec fn md_html_line_events(lines: Seq<Seq<char>>) -> Seq<EventV>
    decreases lines.len(),
{
    if lines.len() == 0 {
        Seq::empty()
    } else {
        md_html_line_events(lines.drop_last()) + seq![EventV::Html(lines.last())]
    }
}

/// Events of the first `n` cells of a row of texts (missing cells empty).
pub open spec fn md_cells_events(texts: Seq<Seq<char>>, n: int, refs: RV) -> Seq<EventV>
    decreases n,
{
    if n <= 0 {
        Seq::empty()
    } else {
        md_cells_events(texts, n - 1, refs) + seq![EventV::Start(TagV::TableCell)] + text_events(
            if n - 1 < texts.len() {
                texts[n - 1]
            } else {
                Seq::empty()
            },
            refs,
        ) + seq![EventV::End(TagEnd::TableCell)]
    }
}

/// Events of body rows cut or padded to `width` cells.
pub open spec fn md_rows_events(rows: Seq<Seq<Seq<char>>>, width: int, refs: RV) -> Seq<EventV>
    decreases rows.len(),
{
    if rows.len() == 0 {
        Seq::empty()
    } else {
        md_rows_events(rows.drop_last(), width, refs) + seq![EventV::Start(TagV::TableRow)]
            + md_cells_events(rows.last(), width, refs) + seq![EventV::End(TagEnd::TableRow)]
    }
}

/// Events of a code block with this info string and these lines.
pub open spec fn md_code_events(info: Seq<char>, lines: Seq<Seq<char>>) -> Seq<EventV> {
    seq![EventV::Start(TagV::CodeBlock { info })] + (if lines.len() > 0 {
        seq![EventV::Text(crate::highlight::spec_code_text(lines))]
    } else {
        Seq::empty()
    }) + seq![EventV::End(TagEnd::CodeBlock)]
}

/// Events of the AST block converted from a parsed block.
pub open spec fn mb_events(m: MB, refs: RV, gfm: bool) -> Seq<EventV>
    decreases m, 1nat,
{
    match m {
        MB::Paragraph(lines) => para_events(crate::html_to_markdown::join_nl(lines), refs),
        MB::Heading(level, content, _) => seq![EventV::Start(TagV::Heading { level })] + text_events(
            content,
            refs,
        ) + seq![EventV::End(TagEnd::Heading)],
        MB::ThematicBreak(_) => seq![EventV::Rule],
        MB::IndentedCode(lines) => md_code_events(Seq::empty(), lines),
        MB::FencedCode { info, lines, .. } => md_code_events(info, lines),
        MB::HtmlBlock(lines) => seq![EventV::Start(TagV::HtmlBlock)] + md_html_line_events(lines)
            + seq![EventV::End(TagEnd::HtmlBlock)],
        MB::BlockQuote(c) => seq![EventV::Start(TagV::BlockQuote)] + mbs_events(c, refs, gfm)
            + seq![EventV::End(TagEnd::BlockQuote)],
        MB::List { ordered, start, tight, items, .. } => seq![
            EventV::Start(TagV::List { ordered, start, tight }),
        ] + mitems_events(items, refs, gfm) + seq![EventV::End(TagEnd::List)],
        MB::Table { header, aligns, rows } => seq![
            EventV::Start(TagV::Table { alignments: aligns.map_values(|a: crate::markdown_to_html::Align| spec_alignment_of(a)) }),
            EventV::Start(TagV::TableHead),
        ] + md_cells_events(header, header.len() as int, refs) + seq![EventV::End(TagEnd::TableHead)]
            + md_rows_events(rows, header.len() as int, refs) + seq![EventV::End(TagEnd::Table)],
    }
}

pub open spec fn mbs_events(ms: Seq<MB>, refs: RV, gfm: bool) -> Seq<EventV>
    decreases ms, 0nat,
{
    if ms.len() == 0 {
        Seq::empty()
    } else {
        mbs_events(ms.drop_last(), refs, gfm) + mb_events(ms.last(), refs, gfm)
    }
}

pub open spec fn mitems_events(items: Seq<Seq<MB>>, refs: RV, gfm: bool) -> Seq<EventV>
    decreases items, 0nat,
{
    if items.len() == 0 {
        Seq::empty()
    } else {
        mitems_events(items.drop_last(), refs, gfm) + mitem_events(items.last(), refs, gfm)
    }
}

/// Events of the AST item converted from a parsed item: with GFM, a
/// task marker leading its first paragraph becomes a `TaskListMarker`.
pub open spec fn mitem_events(m: Seq<MB>, refs: RV, gfm: bool) -> Seq<EventV>
    decreases m, 1nat,
{
    let t = if gfm {
        item_task(m)
    } else {
        None
    };
    seq![EventV::Start(TagV::Item)] + (match t {
        Some((checked, rest)) => seq![EventV::TaskListMarker(checked)] + para_events(rest, refs)
            + mbs_events(m.drop_first(), refs, gfm),
        None => mbs_events(m, refs, gfm),
    }) + seq![EventV::End(TagEnd::Item)]
}

/// The events of a Markdown input: those of the blocks parsed from its
/// body, converted to the AST.
pub open spec fn spec_events(input: Seq<char>, gfm: bool) -> Seq<EventV> {
    let p = crate::markdown_to_html::spec_parse_body(crate::frontmatter::spec_strip_frontmatter(input));
    mbs_events(p.0, p.1, gfm)
}

/// Parse inline text with the document's reference definitions.
fn parse_inlines(text: &Vec<char>, refs: &RefDefs) -> (r: Vec<Inline>)
    ensures
        list_inline_html(r@) == crate::inline_parser::spec_inline_html(text@, refs_view(*refs)),
        crate::stream::inlines_events(r@) == text_events(text@, refs_view(*refs)),
{
    let elems = crate::inline_parser::parse_inline_chars(text, refs);
    proof {
        crate::inline_parser::lemma_list_html_view(elems@);
    }
    convert_inlines(&elems)
}

fn strings_of(lines: &Vec<Vec<char>>) -> (r: Vec<String>)
    ensures
        r@.len() == lines@.len(),
        forall|k: int| 0 <= k < lines@.len() ==> #[trigger] r@[k]@ == lines@[k]@,
{
    let mut r: Vec<String> = Vec::new();
    let mut k: usize = 0;
    while k < lines.len()
        invariant
            k <= lines@.len(),
            r@.len() == k,
            forall|j: int| 0 <= j < k ==> #[trigger] r@[j]@ == lines@[j]@,
        decreases lines@.len() - k,
    {
        r.push(string_of(&lines[k]));
        k += 1;
    }
    r
}

/// The AST alignment of a parsed column alignment (same variant).
pub open spec fn spec_alignment_of(a: crate::markdown_to_html::Align) -> Alignment {
    match a {
        crate::markdown_to_html::Align::Unset => Alignment::Unset,
        crate::markdown_to_html::Align::Left => Alignment::Left,
        crate::markdown_to_html::Align::Center => Alignment::Center,
        crate::markdown_to_html::Align::Right => Alignment::Right,
    }
}

fn convert_alignment(a: crate::markdown_to_html::Align) -> (r: Alignment)
    ensures
        r == spec_alignment_of(a),
{
    match a {
        crate::markdown_to_html::Align::Unset => Alignment::Unset,
        crate::markdown_to_html::Align::Left => Alignment::Left,
        crate::markdown_to_html::Align::Center => Alignment::Center,
        crate::markdown_to_html::Align::Right => Alignment::Right,
    }
}

/// Table cells from their texts; a body row is cut or padded with empty
/// cells to the header's width, as the HTML converter renders it.
fn convert_cells(texts: &Vec<Vec<char>>, width: usize, refs: &RefDefs) -> (r: Vec<TableCell>)
    ensures
        r@.len() == width,
        cells_agree(r@, lines_view(texts@), width as int, refs_view(*refs)),
        crate::stream::cells_events(r@) == md_cells_events(lines_view(texts@), width as int, refs_view(*refs)),
{
    let mut r: Vec<TableCell> = Vec::new();
    let mut k: usize = 0;
    while k < width
        invariant
            k <= width,
            r@.len() == k,
            forall|j: int|
                0 <= j < k ==> list_inline_html(#[trigger] r@[j].content@)
                    == crate::inline_parser::spec_inline_html(
                    if j < texts@.len() {
                        texts@[j]@
                    } else {
                        Seq::empty()
                    },
                    refs_view(*refs),
                ),
            crate::stream::cells_events(r@) == md_cells_events(lines_view(texts@), k as int, refs_view(*refs)),
        decreases width - k,
    {
        let content = if k < texts.len() {
            parse_inlines(&texts[k], refs)
        } else {
            parse_inlines(&Vec::new(), refs)
        };
        let ghost r0 = r@;
        r.push(TableCell { content });
        assert(r@.drop_last() =~= r0);
        k += 1;
    }
    r
}

/// Whether `text` opens with a GFM task marker (`[ ]`, `[x]` or `[X]`
/// followed by a space or tab): the checked state and the rest after the
/// marker and its blanks.
fn strip_task_prefix(text: &Vec<char>) -> (r: Option<(bool, Vec<char>)>)
    ensures
        match r {
            Some((checked, rest)) => spec_task_prefix(text@) == Some((checked, rest@)),
            None => spec_task_prefix(text@) is None,
        },
{
    if text.len() < 4 || text[0] != '[' || text[2] != ']' || !(text[3] == ' ' || text[3] == '\t') {
        return None;
    }
    let c = text[1];
    if !(c == ' ' || c == 'x' || c == 'X') {
        return None;
    }
    let mut k: usize = 4;
    while k < text.len() && (text[k] == ' ' || text[k] == '\t')
        invariant
            4 <= k <= text@.len(),
            crate::text::lead_end(text@, 1, k as int) == crate::text::lead_end(text@, 1, 4),
        decreases text@.len() - k,
    {
        k += 1;
    }
    let rest = crate::text::slice(text, k, text.len());
    assert(rest@ =~= text@.skip(k as int));
    Some((c != ' ', rest))
}

/// One parsed block as an AST block, with its heading kind, break and
/// fence characters and list markers as written. Without GFM it renders
/// as the parsed block does (see [`agrees`]).
#[verifier::spinoff_prover]
#[verifier::rlimit(80)]
fn convert_block(b: &crate::markdown_to_html::Block, refs: &RefDefs, gfm: bool) -> (r: Block)
    ensures
        !gfm ==> agrees(r, mb_view(*b), refs_view(*refs)),
        gfm ==> agrees_gfm(r, mb_view(*b), refs_view(*refs)),
        crate::stream::block_events(r) == mb_events(mb_view(*b), refs_view(*refs), gfm),
        crate::stream_law::code_ok(r),
    decreases b,
{
    proof {
        reveal_strlit(">");
        reveal_strlit("\"");
        assert(">"@ =~= seq!['>']);
        assert("\""@ =~= seq!['"']);
    }
    match b {
        crate::markdown_to_html::Block::Paragraph(lines) => {
            let text = crate::markdown_to_html::join_lines(lines);
            assert(lines@.map_values(|l: Vec<char>| l@) =~= lines_view(lines@));
            Block::Paragraph(parse_inlines(&text, refs))
        },
        crate::markdown_to_html::Block::Heading(level, content, kind) => Block::Heading(
            Heading { level: *level, content: parse_inlines(content, refs), kind: *kind },
        ),
        crate::markdown_to_html::Block::ThematicBreak(marker) => Block::ThematicBreak(
            ThematicBreak { marker: *marker },
        ),
        crate::markdown_to_html::Block::IndentedCode(lines) => {
            let ss = strings_of(lines);
            proof {
                lemma_code_lines(ss@, lines_view(lines@));
                lemma_line_events(ss@, lines_view(lines@));
            }
            let info = String::new();
            proof {
                assert(info@ =~= Seq::<char>::empty());
                assert(crate::markdown_to_html::spec_first_word(info@) =~= Seq::<char>::empty());
                assert(crate::markdown_to_html::unbackslash_from(Seq::<char>::empty(), 0) =~= Seq::<char>::empty());
                assert(crate::highlight::spec_language(info@).len() == 0);
            }
            Block::CodeBlock(CodeBlock { kind: CodeBlockKind::Indented, info, lines: ss })
        },
        crate::markdown_to_html::Block::FencedCode { info, lines, fence_char, fence_len } => {
            let ss = strings_of(lines);
            proof {
                lemma_code_lines(ss@, lines_view(lines@));
                lemma_line_events(ss@, lines_view(lines@));
            }
            Block::CodeBlock(
                CodeBlock {
                    kind: CodeBlockKind::Fenced { fence_char: *fence_char, fence_len: *fence_len },
                    info: string_of(info),
                    lines: ss,
                },
            )
        },
        crate::markdown_to_html::Block::HtmlBlock(lines) => {
            let ss = strings_of(lines);
            proof {
                lemma_code_lines(ss@, lines_view(lines@));
                lemma_line_events(ss@, lines_view(lines@));
            }
            Block::HtmlBlock(ss)
        },
        crate::markdown_to_html::Block::BlockQuote(children) => {
            let mut out: Vec<Block> = Vec::new();
            let mut k: usize = 0;
            while k < children.len()
                invariant
                    k <= children@.len(),
                    out@.len() == k,
                    !gfm ==> forall|j: int| 0 <= j < k ==> #[trigger] agrees(out@[j], mb_view(children@[j]), refs_view(*refs)),
                    gfm ==> forall|j: int| 0 <= j < k ==> #[trigger] agrees_gfm(out@[j], mb_view(children@[j]), refs_view(*refs)),
                    crate::stream::blocks_events(out@) == mbs_events(mbs_view(children@.take(k as int)), refs_view(*refs), gfm),
                    forall|j: int| 0 <= j < k ==> crate::stream_law::code_ok(#[trigger] out@[j]),
                decreases children@.len() - k,
            {
                proof {
                    assert(decreases_to!(b => children));
                    assert(decreases_to!(children => children@));
                    assert(decreases_to!(children@ => children@[k as int]));
                }
                let ghost o0 = out@;
                out.push(convert_block(&children[k], refs, gfm));
                proof {
                    assert(out@.drop_last() =~= o0);
                    crate::markdown_to_html::lemma_mbs_push(children@.take(k as int), children@[k as int]);
                    assert(children@.take(k as int).push(children@[k as int]) =~= children@.take(k + 1));
                    assert(mbs_view(children@.take(k + 1)).drop_last() =~= mbs_view(children@.take(k as int)));
                }
                k += 1;
            }
            assert(children@.take(children@.len() as int) =~= children@);
            proof {
                lemma_mbs_view_props(children@);
                crate::stream_law::lemma_code_ok_all_from(out@);
                if gfm {
                    lemma_blocks_agree_gfm(out@, mbs_view(children@), refs_view(*refs));
                }
                if !gfm && md_ok_block(mb_view(*b), refs_view(*refs)) {
                    lemma_blocks_agree(out@, mbs_view(children@), refs_view(*refs));
                }
            }
            Block::BlockQuote(out)
        },
        crate::markdown_to_html::Block::List { ordered, start, tight, items, bullet, delimiter } => {
            let mut out: Vec<ListItem> = Vec::new();
            let mut q: usize = 0;
            while q < items.len()
                invariant
                    q <= items@.len(),
                    out@.len() == q,
                    !gfm ==> forall|j: int| 0 <= j < q ==> #[trigger] item_agrees(out@[j], mbs_view(items@[j]@), refs_view(*refs)),
                    gfm ==> forall|j: int| 0 <= j < q ==> #[trigger] item_agrees_gfm(out@[j], mbs_view(items@[j]@), refs_view(*refs)),
                    crate::stream::items_events(out@) == mitems_events(items_view(items@.take(q as int)), refs_view(*refs), gfm),
                    forall|j: int| 0 <= j < q ==> crate::stream_law::code_ok_all(#[trigger] out@[j].blocks@),
                decreases items@.len() - q,
            {
                proof {
                    assert(decreases_to!(b => items));
                    assert(decreases_to!(items => items@));
                    assert(decreases_to!(items@ => items@[q as int]));
                }
                let ghost o0 = out@;
                out.push(convert_list_item(&items[q], refs, gfm));
                proof {
                    assert(out@.drop_last() =~= o0);
                    crate::markdown_to_html::lemma_items_push(items@.take(q as int), items@[q as int]);
                    assert(items@.take(q as int).push(items@[q as int]) =~= items@.take(q + 1));
                    assert(items_view(items@.take(q + 1)).drop_last() =~= items_view(items@.take(q as int)));
                }
                q += 1;
            }
            assert(items@.take(items@.len() as int) =~= items@);
            proof {
                lemma_items_view_props(items@);
                crate::stream_law::lemma_code_ok_items_from(out@);
                if gfm {
                    lemma_items_agree_gfm(out@, items_view(items@), refs_view(*refs));
                }
                if !gfm && md_ok_block(mb_view(*b), refs_view(*refs)) {
                    lemma_items_agree(out@, items_view(items@), *tight, refs_view(*refs));
                }
            }
            Block::List(
                List {
                    ordered: *ordered,
                    bullet: *bullet,
                    delimiter: *delimiter,
                    start: *start,
                    tight: *tight,
                    items: out,
                },
            )
        },
        crate::markdown_to_html::Block::Table { header, aligns, rows } => {
            let width = header.len();
            let h = convert_cells(header, width, refs);
            let mut alignments: Vec<Alignment> = Vec::new();
            let mut k: usize = 0;
            while k < aligns.len()
                invariant
                    k <= aligns@.len(),
                    alignments@.len() == k,
                    forall|j: int| 0 <= j < k ==> #[trigger] alignments@[j] == spec_alignment_of(aligns@[j]),
                decreases aligns@.len() - k,
            {
                alignments.push(convert_alignment(aligns[k]));
                k += 1;
            }
            let mut out_rows: Vec<Vec<TableCell>> = Vec::new();
            let mut q: usize = 0;
            while q < rows.len()
                invariant
                    q <= rows@.len(),
                    out_rows@.len() == q,
                    width == header@.len(),
                    forall|j: int| 0 <= j < q ==> cells_agree(#[trigger] out_rows@[j]@, lines_view(rows@[j]@), width as int, refs_view(*refs)),
                    crate::stream::rows_events(out_rows@) == md_rows_events(rows_view(rows@.take(q as int)), width as int, refs_view(*refs)),
                decreases rows@.len() - q,
            {
                let ghost o0 = out_rows@;
                out_rows.push(convert_cells(&rows[q], width, refs));
                proof {
                    assert(out_rows@.drop_last() =~= o0);
                    assert(rows_view(rows@.take(q + 1)).drop_last() =~= rows_view(rows@.take(q as int)));
                }
                q += 1;
            }
            assert(rows@.take(rows@.len() as int) =~= rows@);
            assert(alignments@ =~= aligns@.map_values(|a: crate::markdown_to_html::Align| spec_alignment_of(a)));
            proof {
                lemma_cells_agree("th"@, h@, lines_view(header@), width as int, alignments@, aligns@, refs_view(*refs), width as int);
                assert(h@.take(width as int) =~= h@);
                lemma_rows_agree(out_rows@, rows_view(rows@), width as int, alignments@, aligns@, refs_view(*refs));
            }
            Block::Table(Box::new(Table { header: h, alignments, rows: out_rows }))
        },
    }
}

/// One parsed list item; with GFM a task marker leading its first
/// paragraph becomes the item's task state. Without GFM it renders as
/// the parsed item does.
fn convert_list_item(item: &Vec<crate::markdown_to_html::Block>, refs: &RefDefs, gfm: bool) -> (r: ListItem)
    ensures
        !gfm ==> item_agrees(r, mbs_view(item@), refs_view(*refs)),
        gfm ==> item_agrees_gfm(r, mbs_view(item@), refs_view(*refs)),
        crate::stream::item_events(r) == mitem_events(mbs_view(item@), refs_view(*refs), gfm),
        crate::stream_law::code_ok_all(r.blocks@),
    decreases item,
{
    let ghost mm = mbs_view(item@);
    let ghost t = item_task(mm);
    let ghost lo: int = if t is Some {
        1
    } else {
        0
    };
    let ghost lg: int = if gfm && t is Some {
        1
    } else {
        0
    };
    let ghost rest_t: Seq<char> = match t {
        Some((_, r)) => r,
        None => Seq::empty(),
    };
    proof {
        lemma_mbs_view_props(item@);
    }
    let mut blocks: Vec<Block> = Vec::new();
    let mut task: Option<bool> = None;
    let mut k: usize = 0;
    while k < item.len()
        invariant
            k <= item@.len(),
            mm == mbs_view(item@),
            mm.len() == item@.len(),
            forall|j: int| 0 <= j < item@.len() ==> #[trigger] mm[j] == mb_view(item@[j]),
            t == item_task(mm),
            lo == (if t is Some {
                1int
            } else {
                0int
            }),
            !gfm ==> task is None && blocks@.len() == k && forall|j: int| 0 <= j < k ==> #[trigger] agrees(blocks@[j], mb_view(item@[j]), refs_view(*refs)),
            gfm ==> blocks@.len() == k,
            gfm && k == 0 ==> task is None,
            gfm && k > 0 ==> match t {
                Some((c, rest)) => task == Some(c) && (blocks@[0] matches Block::Paragraph(inl) && list_inline_html(inl@)
                    == crate::inline_parser::spec_inline_html(rest, refs_view(*refs))),
                None => task is None,
            },
            gfm ==> forall|j: int| lo <= j < k ==> #[trigger] agrees_gfm(blocks@[j], mm[j], refs_view(*refs)),
            lg == (if gfm && t is Some {
                1int
            } else {
                0int
            }),
            rest_t == (match t {
                Some((_, r)) => r,
                None => Seq::<char>::empty(),
            }),
            k < lg ==> blocks@.len() == 0,
            forall|j: int| 0 <= j < blocks@.len() ==> crate::stream_law::code_ok(#[trigger] blocks@[j]),
            k >= lg ==> crate::stream::blocks_events(blocks@) == (if lg == 1 {
                para_events(rest_t, refs_view(*refs))
            } else {
                Seq::empty()
            }) + mbs_events(mm.subrange(lg, k as int), refs_view(*refs), gfm),
        decreases item@.len() - k,
    {
        let ghost b0 = blocks@;
        proof {
            assert(decreases_to!(item => item@));
            assert(decreases_to!(item@ => item@[k as int]));
        }
        let mut done = false;
        if gfm && k == 0 {
            match &item[0] {
                crate::markdown_to_html::Block::Paragraph(lines) => {
                    let text = crate::markdown_to_html::join_lines(lines);
                    assert(lines@.map_values(|l: Vec<char>| l@) =~= lines_view(lines@));
                    assert(t == spec_task_prefix(text@));
                    match strip_task_prefix(&text) {
                        Some((checked, rest)) => {
                            task = Some(checked);
                            let inl = parse_inlines(&rest, refs);
                            let ghost pb = Block::Paragraph(inl);
                            assert(crate::stream::block_events(pb) == para_events(rest@, refs_view(*refs)));
                            assert(rest@ == rest_t);
                            blocks.push(Block::Paragraph(inl));
                            done = true;
                            proof {
                                assert(blocks@.drop_last() =~= Seq::<Block>::empty());
                                assert(blocks@.last() == pb);
                                assert(crate::stream::blocks_events(blocks@.drop_last()) == Seq::<EventV>::empty());
                                assert(crate::stream::blocks_events(blocks@) =~= crate::stream::block_events(pb));
                                assert(mm.subrange(1, 1) =~= Seq::<MB>::empty());
                                assert(crate::stream::blocks_events(blocks@) =~= para_events(rest_t, refs_view(*refs))
                                    + mbs_events(mm.subrange(1, 1), refs_view(*refs), gfm));
                            }
                        },
                        None => {},
                    }
                },
                _ => {},
            }
        }
        if !done {
            blocks.push(convert_block(&item[k], refs, gfm));
            proof {
                assert(blocks@.drop_last() =~= b0);
                assert(mm.subrange(lg, k + 1).drop_last() =~= mm.subrange(lg, k as int));
                assert(mm.subrange(lg, k + 1).last() == mm[k as int]);
                let pre = if lg == 1 {
                    para_events(rest_t, refs_view(*refs))
                } else {
                    Seq::empty()
                };
                assert(crate::stream::blocks_events(blocks@) =~= pre + mbs_events(mm.subrange(lg, k + 1), refs_view(*refs), gfm));
            }
        }
        k += 1;
    }
    let r = ListItem { task, blocks };
    proof {
        crate::stream_law::lemma_code_ok_all_from(r.blocks@);
        assert(mm.subrange(0, mm.len() as int) =~= mm);
        assert(mm.subrange(1, mm.len() as int) =~= mm.drop_first());
        assert(Seq::<EventV>::empty() + mbs_events(mm, refs_view(*refs), gfm) =~= mbs_events(mm, refs_view(*refs), gfm));
    }
    proof {
        if !gfm {
            lemma_item_agree(r, mbs_view(item@), refs_view(*refs));
        } else if t is Some {
            lemma_blocks_agree_gfm(blocks@.drop_first(), mm.drop_first(), refs_view(*refs));
        } else {
            lemma_blocks_agree_gfm(blocks@, mm, refs_view(*refs));
        }
    }
    r
}

/// What a parse of `input` gives: the reference definitions of its body
/// after the metadata block, and blocks that agree with the body's parsed
/// blocks (with GFM, task markers become item states), whose indented code
/// blocks carry no language.
pub open spec fn parses_to(input: Seq<char>, gfm: bool, blocks: Seq<Block>, refs: RV) -> bool {
    let p = crate::markdown_to_html::spec_parse_body(crate::frontmatter::spec_strip_frontmatter(input));
    &&& refs == p.1
    &&& (!gfm ==> blocks_agree(blocks, p.0, refs))
    &&& (gfm ==> blocks_agree_gfm(blocks, p.0, refs))
    &&& crate::stream_law::code_ok_all(blocks)
}

/// A document parsed without GFM renders as the HTML converter renders its
/// input, wherever no loose list item of the parsed blocks is a single
/// paragraph without inline content.
pub proof fn law_ast_html_is_convert(input: Seq<char>, blocks: Seq<Block>, refs: RV)
    requires
        parses_to(input, false, blocks, refs),
        md_ok_blocks(
            crate::markdown_to_html::spec_parse_body(crate::frontmatter::spec_strip_frontmatter(input)).0,
            refs,
        ),
    ensures
        blocks_html(blocks) == crate::markdown_to_html::spec_convert(input),
{
    let p = crate::markdown_to_html::spec_parse_body(crate::frontmatter::spec_strip_frontmatter(input));
    lemma_blocks_agree(blocks, p.0, refs);
}

/// A leading metadata block yields no events: an input with one has the
/// events of its body (where the body does not itself open with another).
pub proof fn law_metadata_no_events(input: Seq<char>, gfm: bool)
    requires
        crate::frontmatter::spec_split(input) is Some,
        crate::frontmatter::spec_split(crate::frontmatter::spec_strip_frontmatter(input)) is None,
    ensures
        spec_events(input, gfm) == spec_events(crate::frontmatter::spec_strip_frontmatter(input), gfm),
{
}

/// Parse Markdown into a [`Document`] with explicit [`crate::Options`].
///
/// The blocks are those the HTML converter renders, with the same
/// reference definitions; pipe tables parse in both modes. With `gfm`,
/// task-list items are recognised. The frontmatter is that of
/// [`crate::frontmatter::parse_with_frontmatter`].
pub fn parse(input: &str, options: crate::Options) -> (r: Document)
    ensures
        match crate::frontmatter::spec_split(input@) {
            None => r.frontmatter is None,
            Some((a, b, c, _)) => {
                &&& r.frontmatter is Some
                &&& r.frontmatter->0.original@ == input@.take(a)
                &&& crate::frontmatter::keys_unique(r.frontmatter->0.data@)
                &&& forall|k: Seq<char>| crate::frontmatter::pair_lookup(r.frontmatter->0.data@, k)
                    == crate::frontmatter::last_value(
                    crate::frontmatter::entries_from(input@.subrange(b, c), 0, crate::frontmatter::data_sep(input@, c)),
                    k,
                )
            },
        },
        parses_to(input@, options.gfm, r.blocks@, refs_view(r.references)),
        crate::stream::blocks_events(r.blocks@) == spec_events(input@, options.gfm),
        crate::stream_law::code_ok_all(r.blocks@),
{
    let (frontmatter, _) = crate::frontmatter::parse_with_frontmatter(input);
    let v = chars_of(input);
    let body = crate::frontmatter::strip_frontmatter_chars(&v);
    let (parsed, references) = crate::markdown_to_html::parse_body(&body);
    let mut blocks: Vec<Block> = Vec::new();
    let mut k: usize = 0;
    while k < parsed.len()
        invariant
            k <= parsed@.len(),
            blocks@.len() == k,
            !options.gfm ==> forall|j: int| 0 <= j < k ==> #[trigger] agrees(blocks@[j], mb_view(parsed@[j]), refs_view(references)),
            options.gfm ==> forall|j: int| 0 <= j < k ==> #[trigger] agrees_gfm(blocks@[j], mb_view(parsed@[j]), refs_view(references)),
            crate::stream::blocks_events(blocks@) == mbs_events(mbs_view(parsed@.take(k as int)), refs_view(references), options.gfm),
            forall|j: int| 0 <= j < k ==> crate::stream_law::code_ok(#[trigger] blocks@[j]),
        decreases parsed@.len() - k,
    {
        let ghost b0 = blocks@;
        blocks.push(convert_block(&parsed[k], &references, options.gfm));
        proof {
            assert(blocks@.drop_last() =~= b0);
            crate::markdown_to_html::lemma_mbs_push(parsed@.take(k as int), parsed@[k as int]);
            assert(parsed@.take(k as int).push(parsed@[k as int]) =~= parsed@.take(k + 1));
            assert(mbs_view(parsed@.take(k + 1)).drop_last() =~= mbs_view(parsed@.take(k as int)));
        }
        k += 1;
    }
    assert(parsed@.take(parsed@.len() as int) =~= parsed@);
    let d = Document { blocks, references, frontmatter };
    proof {
        crate::markdown_to_html::lemma_mbs_view_props(parsed@);
        crate::stream_law::lemma_code_ok_all_from(blocks@);
    }
    assert(!options.gfm ==> blocks_agree(d.blocks@, mbs_view(parsed@), refs_view(d.references)));
    proof {
        if options.gfm {
            lemma_blocks_agree_gfm(d.blocks@, mbs_view(parsed@), refs_view(d.references));
        }
    }
    d
}

/// Parse Markdown into a [`Document`] with GFM extensions enabled.
pub fn parse_gfm(input: &str) -> (r: Document)
    ensures
        match crate::frontmatter::spec_split(input@) {
            None => r.frontmatter is None,
            Some((a, b, c, _)) => {
                &&& r.frontmatter is Some
                &&& r.frontmatter->0.original@ == input@.take(a)
                &&& crate::frontmatter::keys_unique(r.frontmatter->0.data@)
                &&& forall|k: Seq<char>| crate::frontmatter::pair_lookup(r.frontmatter->0.data@, k)
                    == crate::frontmatter::last_value(
                    crate::frontmatter::entries_from(input@.subrange(b, c), 0, crate::frontmatter::data_sep(input@, c)),
                    k,
                )
            },
        },
        parses_to(input@, true, r.blocks@, refs_view(r.references)),
        crate::stream::blocks_events(r.blocks@) == spec_events(input@, true),
        crate::stream_law::code_ok_all(r.blocks@),
{
    parse(input, crate::Options::gfm())
}

// ---------------------------------------------------------------------------
// HTML rendering from the AST
// ---------------------------------------------------------------------------

/// `<a href="...">` with an optional non-empty title, around `inner`.
pub open spec fn link_html(inner: Seq<char>, url: Seq<char>, title: Option<String>) -> Seq<char> {
    let href = spec_escape_html(spec_clean_url(url));
    if title is Some && title->0@.len() > 0 {
        "<a href=\""@ + href + "\" title=\""@ + spec_escape_html(title->0@) + "\">"@ + inner
            + "</a>"@
    } else {
        "<a href=\""@ + href + "\">"@ + inner + "</a>"@
    }
}

/// HTML of one inline.
pub open spec fn inline_html(i: Inline) -> Seq<char>
    decreases i,
{
    match i {
        Inline::Text(s) => spec_escape_html(s@),
        Inline::Emphasis { content, .. } => "<em>"@ + list_inline_html(content@) + "</em>"@,
        Inline::Strong { content, .. } => "<strong>"@ + list_inline_html(content@) + "</strong>"@,
        Inline::Strikethrough(content) => "<del>"@ + list_inline_html(content@) + "</del>"@,
        Inline::Code(s) => "<code>"@ + spec_escape_html(s@) + "</code>"@,
        Inline::Link(link) => link_html(list_inline_html(link.text@), link.url@, link.title),
        Inline::Image(img) => {
            let src = spec_escape_html(spec_clean_url(img.url@));
            if img.title is Some && img.title->0@.len() > 0 {
                "<img src=\""@ + src + "\" alt=\""@ + spec_escape_html(img.alt@) + "\" title=\""@
                    + spec_escape_html(img.title->0@) + "\" />"@
            } else {
                "<img src=\""@ + src + "\" alt=\""@ + spec_escape_html(img.alt@) + "\" />"@
            }
        },
        Inline::Autolink(a) => link_html(spec_escape_html(a.text@), a.url@, None),
        Inline::RawHtml(s) => s@,
        Inline::HardBreak => "<br />\n"@,
        Inline::SoftBreak => "\n"@,
    }
}

/// HTML of a list of inlines, concatenated.
pub open spec fn list_inline_html(s: Seq<Inline>) -> Seq<char>
    decreases s,
{
    if s.len() == 0 {
        Seq::empty()
    } else {
        list_inline_html(s.drop_last()) + inline_html(s.last())
    }
}

fn push_inline_html(out: &mut Vec<char>, i: &Inline)
    ensures
        final(out)@ == old(out)@ + inline_html(*i),
    decreases i,
{
    let ghost o = out@;
    match i {
        Inline::Text(s) => push_escaped_string(out, s),
        Inline::Emphasis { content, .. } => {
            push_str(out, "<em>");
            push_inlines_html(out, content);
            push_str(out, "</em>");
        },
        Inline::Strong { content, .. } => {
            push_str(out, "<strong>");
            push_inlines_html(out, content);
            push_str(out, "</strong>");
        },
        Inline::Strikethrough(content) => {
            push_str(out, "<del>");
            push_inlines_html(out, content);
            push_str(out, "</del>");
        },
        Inline::Code(s) => {
            push_str(out, "<code>");
            push_escaped_string(out, s);
            push_str(out, "</code>");
        },
        Inline::Link(link) => {
            proof {
                assert(decreases_to!(i => link));
            }
            let mut inner: Vec<char> = Vec::new();
            push_inlines_html(&mut inner, &link.text);
            push_link_html(out, &inner, &link.url, &link.title);
        },
        Inline::Image(img) => {
            let titled = match &img.title {
                Some(t) => string_nonempty(t),
                None => false,
            };
            push_str(out, "<img src=\"");
            push_clean_href(out, &img.url);
            push_str(out, "\" alt=\"");
            push_escaped_string(out, &img.alt);
            if titled {
                match &img.title {
                    Some(t) => {
                        push_str(out, "\" title=\"");
                        push_escaped_string(out, t);
                    },
                    None => {},
                }
            }
            push_str(out, "\" />");
        },
        Inline::Autolink(a) => {
            let mut inner: Vec<char> = Vec::new();
            push_escaped_string(&mut inner, &a.text);
            push_link_html(out, &inner, &a.url, &None);
        },
        Inline::RawHtml(s) => push_string(out, s),
        Inline::HardBreak => push_str(out, "<br />\n"),
        Inline::SoftBreak => push_str(out, "\n"),
    }
    proof {
        assert(out@ =~= o + inline_html(*i));
    }
}

/// Append `<a ...>inner</a>`.
fn push_link_html(out: &mut Vec<char>, inner: &Vec<char>, url: &String, title: &Option<String>)
    ensures
        final(out)@ == old(out)@ + link_html(inner@, url@, *title),
{
    let ghost o = out@;
    let titled = match title {
        Some(t) => string_nonempty(t),
        None => false,
    };
    push_str(out, "<a href=\"");
    push_clean_href(out, url);
    if titled {
        match title {
            Some(t) => {
                push_str(out, "\" title=\"");
                push_escaped_string(out, t);
            },
            None => {},
        }
    }
    push_str(out, "\">");
    push_vec(out, inner);
    push_str(out, "</a>");
    proof {
        assert(out@ =~= o + link_html(inner@, url@, *title));
    }
}

fn push_inlines_html(out: &mut Vec<char>, s: &Vec<Inline>)
    ensures
        final(out)@ == old(out)@ + list_inline_html(s@),
    decreases s,
{
    let mut k: usize = 0;
    while k < s.len()
        invariant
            k <= s@.len(),
            out@ == old(out)@ + list_inline_html(s@.take(k as int)),
        decreases s@.len() - k,
    {
        proof {
            assert(decreases_to!(s => s@));
            assert(decreases_to!(s@ => s@[k as int]));
        }
        push_inline_html(out, &s[k]);
        proof {
            assert(s@.take(k + 1).drop_last() =~= s@.take(k as int));
            assert(s@.take(k + 1).last() == s@[k as int]);
        }
        k += 1;
    }
    assert(s@.take(s@.len() as int) =~= s@);
}

/// The last character is a line feed.
pub open spec fn ends_nl(s: Seq<char>) -> bool {
    s.len() > 0 && s.last() == '\n'
}

/// The checkbox of a task item (with a trailing space).
pub open spec fn task_checkbox(task: Option<bool>) -> Seq<char> {
    match task {
        Some(true) => "<input type=\"checkbox\" checked=\"\" disabled=\"\" /> "@,
        Some(false) => "<input type=\"checkbox\" disabled=\"\" /> "@,
        None => Seq::empty(),
    }
}

/// The checkbox of a task item without the trailing space.
pub open spec fn task_checkbox_bare(task: Option<bool>) -> Seq<char> {
    match task {
        Some(true) => "<input type=\"checkbox\" checked=\"\" disabled=\"\" />"@,
        Some(false) => "<input type=\"checkbox\" disabled=\"\" />"@,
        None => Seq::empty(),
    }
}

/// Escaped code lines, each followed by `\n`.
pub open spec fn code_lines_html(lines: Seq<String>) -> Seq<char>
    decreases lines.len(),
{
    if lines.len() == 0 {
        Seq::empty()
    } else {
        code_lines_html(lines.drop_last()) + spec_escape_html(lines.last()@) + "\n"@
    }
}

/// Raw HTML lines, each followed by `\n`.
pub open spec fn raw_lines_html(lines: Seq<String>) -> Seq<char>
    decreases lines.len(),
{
    if lines.len() == 0 {
        Seq::empty()
    } else {
        raw_lines_html(lines.drop_last()) + lines.last()@ + "\n"@
    }
}

/// ` class="language-..."` for a fenced block's language, if any.
pub open spec fn fence_class(info: Seq<char>) -> Seq<char> {
    let lang = crate::highlight::spec_language(info);
    if lang.len() > 0 {
        " class=\"language-"@ + spec_escape_html(lang) + "\""@
    } else {
        Seq::empty()
    }
}

/// ` align="..."` of a column alignment.
pub open spec fn align_attr(a: Alignment) -> Seq<char> {
    match a {
        Alignment::Unset => Seq::empty(),
        Alignment::Left => " align=\"left\""@,
        Alignment::Center => " align=\"center\""@,
        Alignment::Right => " align=\"right\""@,
    }
}

pub open spec fn align_of(aligns: Seq<Alignment>, k: int) -> Alignment {
    if 0 <= k < aligns.len() {
        aligns[k]
    } else {
        Alignment::Unset
    }
}

/// Table cells as `<th>`/`<td>` lines.
pub open spec fn cells_html(tag: Seq<char>, cells: Seq<TableCell>, aligns: Seq<Alignment>) -> Seq<
    char,
>
    decreases cells.len(),
{
    if cells.len() == 0 {
        Seq::empty()
    } else {
        cells_html(tag, cells.drop_last(), aligns) + "<"@ + tag + align_attr(
            align_of(aligns, cells.len() - 1),
        ) + ">"@ + list_inline_html(cells.last().content@) + "</"@ + tag + ">\n"@
    }
}

/// Body rows as `<tr>` groups.
pub open spec fn rows_html(rows: Seq<Vec<TableCell>>, aligns: Seq<Alignment>) -> Seq<char>
    decreases rows.len(),
{
    if rows.len() == 0 {
        Seq::empty()
    } else {
        rows_html(rows.drop_last(), aligns) + "<tr>\n"@ + cells_html("td"@, rows.last()@, aligns)
            + "</tr>\n"@
    }
}

pub open spec fn table_html(t: Table) -> Seq<char> {
    "<table>\n<thead>\n<tr>\n"@ + cells_html("th"@, t.header@, t.alignments@)
        + "</tr>\n</thead>\n"@ + (if t.rows@.len() > 0 {
        "<tbody>\n"@ + rows_html(t.rows@, t.alignments@) + "</tbody>\n"@
    } else {
        Seq::empty()
    }) + "</table>\n"@
}

/// HTML of one block.
pub open spec fn block_html(b: Block) -> Seq<char>
    decreases b, 0nat,
{
    match b {
        Block::Paragraph(inl) => "<p>"@ + list_inline_html(inl@) + "</p>\n"@,
        Block::Heading(h) => "<h"@ + spec_decimal(h.level as nat) + ">"@ + list_inline_html(
            h.content@,
        ) + "</h"@ + spec_decimal(h.level as nat) + ">\n"@,
        Block::ThematicBreak(_) => "<hr />\n"@,
        Block::CodeBlock(code) => match code.kind {
            CodeBlockKind::Indented => "<pre><code>"@ + code_lines_html(code.lines@)
                + "</code></pre>\n"@,
            CodeBlockKind::Fenced { .. } => "<pre><code"@ + fence_class(code.info@) + ">"@
                + code_lines_html(code.lines@) + "</code></pre>\n"@,
        },
        Block::HtmlBlock(lines) => raw_lines_html(lines@),
        Block::BlockQuote(children) => "<blockquote>\n"@ + blocks_html(children@)
            + "</blockquote>\n"@,
        Block::List(list) => (if list.ordered {
            if list.start != 1 {
                "<ol start=\""@ + spec_decimal(list.start as nat) + "\">\n"@
            } else {
                "<ol>\n"@
            }
        } else {
            "<ul>\n"@
        }) + items_html(list.items@, list.tight) + (if list.ordered {
            "</ol>\n"@
        } else {
            "</ul>\n"@
        }),
        Block::Table(t) => table_html(*t),
    }
}

/// HTML of a list of blocks, concatenated.
pub open spec fn blocks_html(bs: Seq<Block>) -> Seq<char>
    decreases bs, 0nat,
{
    if bs.len() == 0 {
        Seq::empty()
    } else {
        blocks_html(bs.drop_last()) + block_html(bs.last())
    }
}

/// HTML of list items.
pub open spec fn items_html(items: Seq<ListItem>, tight: bool) -> Seq<char>
    decreases items, 0nat,
{
    if items.len() == 0 {
        Seq::empty()
    } else {
        items_html(items.drop_last(), tight) + item_html(items.last(), tight)
    }
}

/// An item that renders as empty: no blocks, or one empty paragraph.
pub open spec fn empty_item(item: ListItem) -> bool {
    item.blocks@.len() == 0 || (item.blocks@.len() == 1 && (item.blocks@[0] matches Block::Paragraph(
        v,
    ) && v@.len() == 0))
}

/// HTML of one list item. Tight items unwrap paragraphs (children joined
/// by line feeds, `</li>` right after the last one); loose items keep
/// block form; a task checkbox leads the first paragraph.
pub open spec fn item_html(item: ListItem, tight: bool) -> Seq<char>
    decreases item, 0nat,
{
    let cb = task_checkbox(item.task);
    if tight {
        tight_from("<li>"@, item.blocks@, 0, true, cb) + (if item.blocks@.len() == 0 {
            task_checkbox_bare(item.task)
        } else {
            Seq::empty()
        }) + "</li>\n"@
    } else if empty_item(item) {
        if item.task is Some {
            "<li>\n<p>"@ + task_checkbox_bare(item.task) + "</p>\n</li>\n"@
        } else {
            "<li></li>\n"@
        }
    } else {
        "<li>\n"@ + loose_from(item.blocks@, 0, false, cb) + "</li>\n"@
    }
}

/// Tight item content from block `i` on, appended to `cur`.
pub open spec fn tight_from(cur: Seq<char>, bs: Seq<Block>, i: int, first: bool, cb: Seq<char>) -> Seq<
    char,
>
    decreases bs, bs.len() - i,
{
    if i < 0 || i >= bs.len() {
        cur
    } else {
        match bs[i] {
            Block::Paragraph(inl) => {
                let c1 = if i > 0 && !ends_nl(cur) {
                    cur.push('\n')
                } else {
                    cur
                };
                let c2 = if first {
                    c1 + cb
                } else {
                    c1
                };
                tight_from(c2 + list_inline_html(inl@), bs, i + 1, false, cb)
            },
            _ => {
                let c1 = if !ends_nl(cur) {
                    cur.push('\n')
                } else {
                    cur
                };
                tight_from(c1 + block_html(bs[i]), bs, i + 1, first, cb)
            },
        }
    }
}

/// Loose item content from block `i` on; the first paragraph carries the
/// checkbox.
pub open spec fn loose_from(bs: Seq<Block>, i: int, rendered_first: bool, cb: Seq<char>) -> Seq<char>
    decreases bs, bs.len() - i,
{
    if i < 0 || i >= bs.len() {
        Seq::empty()
    } else {
        match bs[i] {
            Block::Paragraph(inl) => if !rendered_first {
                "<p>"@ + cb + list_inline_html(inl@) + "</p>\n"@ + loose_from(bs, i + 1, true, cb)
            } else {
                block_html(bs[i]) + loose_from(bs, i + 1, rendered_first, cb)
            },
            _ => block_html(bs[i]) + loose_from(bs, i + 1, rendered_first, cb),
        }
    }
}

fn checkbox_chars(task: Option<bool>, bare: bool) -> (r: Vec<char>)
    ensures
        r@ == (if bare {
            task_checkbox_bare(task)
        } else {
            task_checkbox(task)
        }),
{
    let mut v: Vec<char> = Vec::new();
    match task {
        Some(true) => push_str(&mut v, "<input type=\"checkbox\" checked=\"\" disabled=\"\" />"),
        Some(false) => push_str(&mut v, "<input type=\"checkbox\" disabled=\"\" />"),
        None => {},
    }
    if !bare {
        match task {
            Some(_) => v.push(' '),
            None => {},
        }
    }
    proof {
        reveal_strlit("<input type=\"checkbox\" checked=\"\" disabled=\"\" />");
        reveal_strlit("<input type=\"checkbox\" disabled=\"\" />");
        reveal_strlit("<input type=\"checkbox\" checked=\"\" disabled=\"\" /> ");
        reveal_strlit("<input type=\"checkbox\" disabled=\"\" /> ");
    }
    assert(v@ =~= (if bare {
        task_checkbox_bare(task)
    } else {
        task_checkbox(task)
    }));
    v
}

fn push_code_lines_html(out: &mut Vec<char>, lines: &Vec<String>)
    ensures
        final(out)@ == old(out)@ + code_lines_html(lines@),
{
    let mut k: usize = 0;
    while k < lines.len()
        invariant
            k <= lines@.len(),
            out@ == old(out)@ + code_lines_html(lines@.take(k as int)),
        decreases lines@.len() - k,
    {
        push_escaped_string(out, &lines[k]);
        push_str(out, "\n");
        proof {
            assert(lines@.take(k + 1).drop_last() =~= lines@.take(k as int));
            assert(lines@.take(k + 1).last() == lines@[k as int]);
        }
        k += 1;
    }
    assert(lines@.take(lines@.len() as int) =~= lines@);
}

fn push_raw_lines_html(out: &mut Vec<char>, lines: &Vec<String>)
    ensures
        final(out)@ == old(out)@ + raw_lines_html(lines@),
{
    let mut k: usize = 0;
    while k < lines.len()
        invariant
            k <= lines@.len(),
            out@ == old(out)@ + raw_lines_html(lines@.take(k as int)),
        decreases lines@.len() - k,
    {
        push_string(out, &lines[k]);
        push_str(out, "\n");
        proof {
            assert(lines@.take(k + 1).drop_last() =~= lines@.take(k as int));
            assert(lines@.take(k + 1).last() == lines@[k as int]);
        }
        k += 1;
    }
    assert(lines@.take(lines@.len() as int) =~= lines@);
}

fn align_at(aligns: &Vec<Alignment>, k: usize) -> (r: Alignment)
    ensures
        r == align_of(aligns@, k as int),
{
    if k < aligns.len() {
        aligns[k]
    } else {
        Alignment::Unset
    }
}

#[verifier::spinoff_prover]
#[verifier::rlimit(40)]
fn push_cells_html(out: &mut Vec<char>, tag: &str, cells: &Vec<TableCell>, aligns: &Vec<Alignment>)
    ensures
        final(out)@ == old(out)@ + cells_html(tag@, cells@, aligns@),
{
    let mut k: usize = 0;
    while k < cells.len()
        invariant
            k <= cells@.len(),
            out@ == old(out)@ + cells_html(tag@, cells@.take(k as int), aligns@),
        decreases cells@.len() - k,
    {
        let ghost o = out@;
        push_str(out, "<");
        push_str(out, tag);
        match align_at(aligns, k) {
            Alignment::Unset => {},
            Alignment::Left => push_str(out, " align=\"left\""),
            Alignment::Center => push_str(out, " align=\"center\""),
            Alignment::Right => push_str(out, " align=\"right\""),
        }
        push_str(out, ">");
        push_inlines_html(out, &cells[k].content);
        push_str(out, "</");
        push_str(out, tag);
        push_str(out, ">\n");
        proof {
            let t = cells@.take(k + 1);
            assert(t.drop_last() =~= cells@.take(k as int));
            assert(t.last() == cells@[k as int]);
            assert(out@ =~= o + ("<"@ + tag@ + align_attr(align_of(aligns@, t.len() - 1)) + ">"@
                + list_inline_html(t.last().content@) + "</"@ + tag@ + ">\n"@));
        }
        k += 1;
    }
    assert(cells@.take(cells@.len() as int) =~= cells@);
}

#[verifier::spinoff_prover]
#[verifier::rlimit(60)]
fn push_table_html(out: &mut Vec<char>, t: &Table)
    ensures
        final(out)@ == old(out)@ + table_html(*t),
{
    let ghost o = out@;
    push_str(out, "<table>\n<thead>\n<tr>\n");
    push_cells_html(out, "th", &t.header, &t.alignments);
    push_str(out, "</tr>\n</thead>\n");
    let ghost mid = out@;
    if t.rows.len() > 0 {
        push_str(out, "<tbody>\n");
        let ghost body0 = out@;
        let mut q: usize = 0;
        while q < t.rows.len()
            invariant
                q <= t.rows@.len(),
                out@ == body0 + rows_html(t.rows@.take(q as int), t.alignments@),
            decreases t.rows@.len() - q,
        {
            push_str(out, "<tr>\n");
            push_cells_html(out, "td", &t.rows[q], &t.alignments);
            push_str(out, "</tr>\n");
            proof {
                let r = t.rows@.take(q + 1);
                assert(r.drop_last() =~= t.rows@.take(q as int));
                assert(r.last() == t.rows@[q as int]);
            }
            q += 1;
        }
        assert(t.rows@.take(t.rows@.len() as int) =~= t.rows@);
        push_str(out, "</tbody>\n");
    }
    push_str(out, "</table>\n");
    proof {
        assert(out@ =~= o + table_html(*t));
    }
}

fn push_heading_html(out: &mut Vec<char>, h: &Heading)
    ensures
        final(out)@ == old(out)@ + "<h"@ + spec_decimal(h.level as nat) + ">"@ + list_inline_html(
            h.content@,
        ) + "</h"@ + spec_decimal(h.level as nat) + ">\n"@,
{
    let ghost o = out@;
    push_str(out, "<h");
    push_decimal(out, h.level as u32);
    push_str(out, ">");
    push_inlines_html(out, &h.content);
    push_str(out, "</h");
    push_decimal(out, h.level as u32);
    push_str(out, ">\n");
    assert(out@ =~= o + "<h"@ + spec_decimal(h.level as nat) + ">"@ + list_inline_html(h.content@)
        + "</h"@ + spec_decimal(h.level as nat) + ">\n"@);
}

fn push_code_html(out: &mut Vec<char>, code: &CodeBlock, hl: Option<&dyn SyntaxHighlighter>)
    ensures
        crate::highlight::hl_stated(hl) ==> final(out)@ == old(out)@ + block_html_hl(Block::CodeBlock(*code), hl),
{
    let ghost o = out@;
    match code.kind {
        CodeBlockKind::Indented => {
            push_str(out, "<pre><code>");
        },
        CodeBlockKind::Fenced { .. } => {
            push_str(out, "<pre><code");
            let lang = crate::highlight::language_from_info(code.info.as_str());
            let lv = chars_of(lang.as_str());
            if lv.len() > 0 {
                push_str(out, " class=\"language-");
                push_escaped(out, &lv);
                push_str(out, "\"");
            }
            push_str(out, ">");
        },
    }
    let ghost o2 = out@;
    match hl {
        Some(h) => {
            let lang = crate::highlight::language_from_info(code.info.as_str());
            let text = crate::highlight::join_code_text(code.lines.as_slice());
            let mut hs = String::new();
            h.write_highlighted(&mut hs, lang.as_str(), text.as_str());
            assert(h.highlighted(lang@, text@) matches Some(x) ==> hs@ == x);
            assert(crate::highlight::views(code.lines@) =~= crate::highlight::views(code.lines@));
            push_string(out, &hs);
        },
        None => push_code_lines_html(out, &code.lines),
    }
    assert(crate::highlight::hl_stated(hl) ==> (out@ == o2 + code_body_html(*code, hl)));
    push_str(out, "</code></pre>\n");
    assert(crate::highlight::hl_stated(hl) ==> (out@ =~= o + block_html_hl(Block::CodeBlock(*code), hl)));
}

#[verifier::spinoff_prover]
fn push_list_html(out: &mut Vec<char>, list: &List, hl: Option<&dyn SyntaxHighlighter>)
    ensures
        crate::highlight::hl_stated(hl) ==> final(out)@ == old(out)@ + block_html_hl(Block::List(*list), hl),
    decreases list, 0usize,
{
    let ghost o = out@;
    if list.ordered {
        if list.start != 1 {
            push_str(out, "<ol start=\"");
            push_decimal(out, list.start);
            push_str(out, "\">\n");
        } else {
            push_str(out, "<ol>\n");
        }
    } else {
        push_str(out, "<ul>\n");
    }
    let ghost mid = out@;
    let mut q: usize = 0;
    while q < list.items.len()
        invariant
            q <= list.items@.len(),
            crate::highlight::hl_stated(hl) ==> out@ == mid + items_html_hl(list.items@.take(q as int), list.tight, hl),
        decreases list.items@.len() - q,
    {
        proof {
            assert(decreases_to!(list => list.items));
            assert(decreases_to!(list.items => list.items@));
            assert(decreases_to!(list.items@ => list.items@[q as int]));
        }
        push_item_html(out, &list.items[q], list.tight, hl);
        proof {
            let t = list.items@.take(q + 1);
            assert(t.drop_last() =~= list.items@.take(q as int));
            assert(t.last() == list.items@[q as int]);
        }
        q += 1;
    }
    assert(list.items@.take(list.items@.len() as int) =~= list.items@);
    if list.ordered {
        push_str(out, "</ol>\n");
    } else {
        push_str(out, "</ul>\n");
    }
    assert(crate::highlight::hl_stated(hl) ==> (out@ =~= o + block_html_hl(Block::List(*list), hl)));
}

fn push_block_html(out: &mut Vec<char>, b: &Block, hl: Option<&dyn SyntaxHighlighter>)
    ensures
        crate::highlight::hl_stated(hl) ==> final(out)@ == old(out)@ + block_html_hl(*b, hl),
    decreases b, 0usize,
{
    let ghost o = out@;
    match b {
        Block::Paragraph(inl) => {
            push_str(out, "<p>");
            push_inlines_html(out, inl);
            push_str(out, "</p>\n");
        },
        Block::Heading(h) => push_heading_html(out, h),
        Block::ThematicBreak(_) => push_str(out, "<hr />\n"),
        Block::CodeBlock(code) => push_code_html(out, code, hl),
        Block::HtmlBlock(lines) => push_raw_lines_html(out, lines),
        Block::BlockQuote(children) => {
            push_str(out, "<blockquote>\n");
            push_blocks_html(out, children, hl);
            push_str(out, "</blockquote>\n");
        },
        Block::List(list) => push_list_html(out, list, hl),
        Block::Table(t) => push_table_html(out, t),
    }
    proof {
        assert(crate::highlight::hl_stated(hl) ==> (out@ =~= o + block_html_hl(*b, hl)));
    }
}

fn push_blocks_html(out: &mut Vec<char>, bs: &Vec<Block>, hl: Option<&dyn SyntaxHighlighter>)
    ensures
        crate::highlight::hl_stated(hl) ==> final(out)@ == old(out)@ + blocks_html_hl(bs@, hl),
    decreases bs, 1usize,
{
    let mut k: usize = 0;
    while k < bs.len()
        invariant
            k <= bs@.len(),
            crate::highlight::hl_stated(hl) ==> out@ == old(out)@ + blocks_html_hl(bs@.take(k as int), hl),
        decreases bs@.len() - k,
    {
        proof {
            assert(decreases_to!(bs => bs@));
            assert(decreases_to!(bs@ => bs@[k as int]));
        }
        push_block_html(out, &bs[k], hl);
        proof {
            let t = bs@.take(k + 1);
            assert(t.drop_last() =~= bs@.take(k as int));
            assert(t.last() == bs@[k as int]);
        }
        k += 1;
    }
    assert(bs@.take(bs@.len() as int) =~= bs@);
}

fn push_item_html(out: &mut Vec<char>, item: &ListItem, tight: bool, hl: Option<&dyn SyntaxHighlighter>)
    ensures
        crate::highlight::hl_stated(hl) ==> final(out)@ == old(out)@ + item_html_hl(*item, tight, hl),
    decreases item, 0usize,
{
    let ghost o = out@;
    let cb = checkbox_chars(item.task, false);
    let bs = &item.blocks;
    if tight {
        let mut cur: Vec<char> = Vec::new();
        push_str(&mut cur, "<li>");
        let mut first = true;
        let mut k: usize = 0;
        while k < bs.len()
            invariant
                k <= bs@.len(),
                crate::highlight::hl_stated(hl) ==> tight_from_hl(cur@, bs@, k as int, first, cb@, hl) == tight_from_hl("<li>"@, bs@, 0, true, cb@, hl),
            decreases bs@.len() - k,
        {
            let ghost c0 = cur@;
            let ghost f0 = first;
            match &bs[k] {
                Block::Paragraph(inl) => {
                    if k > 0 && !(cur.len() > 0 && cur[cur.len() - 1] == '\n') {
                        cur.push('\n');
                    }
                    if first {
                        push_vec(&mut cur, &cb);
                        first = false;
                    }
                    push_inlines_html(&mut cur, inl);
                    proof {
                        let c1 = if k > 0 && !ends_nl(c0) {
                            c0.push('\n')
                        } else {
                            c0
                        };
                        let c2 = if f0 {
                            c1 + cb@
                        } else {
                            c1
                        };
                        assert(crate::highlight::hl_stated(hl) ==> (cur@ =~= c2 + list_inline_html(inl@)));
                    }
                },
                _ => {
                    if !(cur.len() > 0 && cur[cur.len() - 1] == '\n') {
                        cur.push('\n');
                    }
                    proof {
                        assert(decreases_to!(item => item.blocks));
                        assert(decreases_to!(item.blocks => item.blocks@));
                        assert(decreases_to!(item.blocks@ => item.blocks@[k as int]));
                    }
                    push_block_html(&mut cur, &bs[k], hl);
                    proof {
                        let c1 = if !ends_nl(c0) {
                            c0.push('\n')
                        } else {
                            c0
                        };
                        assert(crate::highlight::hl_stated(hl) ==> (cur@ =~= c1 + block_html_hl(bs@[k as int], hl)));
                    }
                },
            }
            assert(crate::highlight::hl_stated(hl) ==> (tight_from_hl(c0, bs@, k as int, f0, cb@, hl) == tight_from_hl(cur@, bs@, k + 1, first, cb@, hl)));
            k += 1;
        }
        push_vec(out, &cur);
        if bs.len() == 0 {
            let bare = checkbox_chars(item.task, true);
            push_vec(out, &bare);
        }
        push_str(out, "</li>\n");
    } else {
        let empty = bs.len() == 0 || (bs.len() == 1 && match &bs[0] {
            Block::Paragraph(v) => v.len() == 0,
            _ => false,
        });
        if empty {
            match item.task {
                Some(_) => {
                    push_str(out, "<li>\n<p>");
                    let bare = checkbox_chars(item.task, true);
                    push_vec(out, &bare);
                    push_str(out, "</p>\n</li>\n");
                },
                None => push_str(out, "<li></li>\n"),
            }
        } else {
            push_str(out, "<li>\n");
            let mut piece: Vec<char> = Vec::new();
            let mut rendered_first = false;
            let mut k: usize = 0;
            while k < bs.len()
                invariant
                    k <= bs@.len(),
                    crate::highlight::hl_stated(hl) ==> piece@ + loose_from_hl(bs@, k as int, rendered_first, cb@, hl) == loose_from_hl(
                        bs@,
                        0,
                        false,
                        cb@,
                        hl,
                    ),
                decreases bs@.len() - k,
            {
                let ghost p0 = piece@;
                proof {
                    assert(decreases_to!(item => item.blocks));
                    assert(decreases_to!(item.blocks => item.blocks@));
                    assert(decreases_to!(item.blocks@ => item.blocks@[k as int]));
                }
                match &bs[k] {
                    Block::Paragraph(inl) => {
                        if !rendered_first {
                            rendered_first = true;
                            push_str(&mut piece, "<p>");
                            push_vec(&mut piece, &cb);
                            push_inlines_html(&mut piece, inl);
                            push_str(&mut piece, "</p>\n");
                            assert(crate::highlight::hl_stated(hl) ==> (p0 + loose_from_hl(bs@, k as int, false, cb@, hl) =~= piece@
                                + loose_from_hl(bs@, k + 1, true, cb@, hl)));
                        } else {
                            push_block_html(&mut piece, &bs[k], hl);
                            assert(crate::highlight::hl_stated(hl) ==> (p0 + loose_from_hl(bs@, k as int, true, cb@, hl) =~= piece@
                                + loose_from_hl(bs@, k + 1, true, cb@, hl)));
                        }
                    },
                    _ => {
                        push_block_html(&mut piece, &bs[k], hl);
                        assert(crate::highlight::hl_stated(hl) ==> (p0 + loose_from_hl(bs@, k as int, rendered_first, cb@, hl) =~= piece@
                            + loose_from_hl(bs@, k + 1, rendered_first, cb@, hl)));
                    },
                }
                k += 1;
            }
            assert(crate::highlight::hl_stated(hl) ==> (piece@ =~= loose_from_hl(bs@, 0, false, cb@, hl)));
            push_vec(out, &piece);
            push_str(out, "</li>\n");
        }
    }
    proof {
        assert(crate::highlight::hl_stated(hl) ==> (out@ =~= o + item_html_hl(*item, tight, hl)));
    }
}

// ---------------------------------------------------------------------------
// HTML with a syntax highlighter for code blocks
// ---------------------------------------------------------------------------

/// HTML of a code block's content: escaped, or the highlighter's HTML for
/// the block's language and text where the highlighter states it.
pub open spec fn code_body_html(code: CodeBlock, hl: Option<&dyn SyntaxHighlighter>) -> Seq<char> {
    match hl {
        Some(h) => match h.highlighted(
            crate::highlight::spec_language(code.info@),
            crate::stream::code_text(code.lines@),
        ) {
            Some(x) => x,
            None => code_lines_html(code.lines@),
        },
        None => code_lines_html(code.lines@),
    }
}

/// HTML of one block, code blocks through `hl`.
pub open spec fn block_html_hl(b: Block, hl: Option<&dyn SyntaxHighlighter>) -> Seq<char>
    decreases b, 0nat,
{
    match b {
        Block::CodeBlock(code) => match code.kind {
            CodeBlockKind::Indented => "<pre><code>"@ + code_body_html(code, hl) + "</code></pre>\n"@,
            CodeBlockKind::Fenced { .. } => "<pre><code"@ + fence_class(code.info@) + ">"@
                + code_body_html(code, hl) + "</code></pre>\n"@,
        },
        Block::BlockQuote(children) => "<blockquote>\n"@ + blocks_html_hl(children@, hl)
            + "</blockquote>\n"@,
        Block::List(list) => (if list.ordered {
            if list.start != 1 {
                "<ol start=\""@ + spec_decimal(list.start as nat) + "\">\n"@
            } else {
                "<ol>\n"@
            }
        } else {
            "<ul>\n"@
        }) + items_html_hl(list.items@, list.tight, hl) + (if list.ordered {
            "</ol>\n"@
        } else {
            "</ul>\n"@
        }),
        _ => block_html(b),
    }
}

/// HTML of a list of blocks, code blocks through `hl`.
pub open spec fn blocks_html_hl(bs: Seq<Block>, hl: Option<&dyn SyntaxHighlighter>) -> Seq<char>
    decreases bs, 0nat,
{
    if bs.len() == 0 {
        Seq::empty()
    } else {
        blocks_html_hl(bs.drop_last(), hl) + block_html_hl(bs.last(), hl)
    }
}

/// HTML of list items, code blocks through `hl`.
pub open spec fn items_html_hl(items: Seq<ListItem>, tight: bool, hl: Option<&dyn SyntaxHighlighter>) -> Seq<char>
    decreases items, 0nat,
{
    if items.len() == 0 {
        Seq::empty()
    } else {
        items_html_hl(items.drop_last(), tight, hl) + item_html_hl(items.last(), tight, hl)
    }
}

/// HTML of one list item, code blocks through `hl`.
pub open spec fn item_html_hl(item: ListItem, tight: bool, hl: Option<&dyn SyntaxHighlighter>) -> Seq<char>
    decreases item, 0nat,
{
    let cb = task_checkbox(item.task);
    if tight {
        tight_from_hl("<li>"@, item.blocks@, 0, true, cb, hl) + (if item.blocks@.len() == 0 {
            task_checkbox_bare(item.task)
        } else {
            Seq::empty()
        }) + "</li>\n"@
    } else if empty_item(item) {
        if item.task is Some {
            "<li>\n<p>"@ + task_checkbox_bare(item.task) + "</p>\n</li>\n"@
        } else {
            "<li></li>\n"@
        }
    } else {
        "<li>\n"@ + loose_from_hl(item.blocks@, 0, false, cb, hl) + "</li>\n"@
    }
}

/// Tight item content from block `i` on, code blocks through `hl`.
pub open spec fn tight_from_hl(
    cur: Seq<char>,
    bs: Seq<Block>,
    i: int,
    first: bool,
    cb: Seq<char>,
    hl: Option<&dyn SyntaxHighlighter>,
) -> Seq<char>
    decreases bs, bs.len() - i,
{
    if i < 0 || i >= bs.len() {
        cur
    } else {
        match bs[i] {
            Block::Paragraph(inl) => {
                let c1 = if i > 0 && !ends_nl(cur) {
                    cur.push('\n')
                } else {
                    cur
                };
                let c2 = if first {
                    c1 + cb
                } else {
                    c1
                };
                tight_from_hl(c2 + list_inline_html(inl@), bs, i + 1, false, cb, hl)
            },
            _ => {
                let c1 = if !ends_nl(cur) {
                    cur.push('\n')
                } else {
                    cur
                };
                tight_from_hl(c1 + block_html_hl(bs[i], hl), bs, i + 1, first, cb, hl)
            },
        }
    }
}

/// Loose item content from block `i` on, code blocks through `hl`.
pub open spec fn loose_from_hl(
    bs: Seq<Block>,
    i: int,
    rendered_first: bool,
    cb: Seq<char>,
    hl: Option<&dyn SyntaxHighlighter>,
) -> Seq<char>
    decreases bs, bs.len() - i,
{
    if i < 0 || i >= bs.len() {
        Seq::empty()
    } else {
        match bs[i] {
            Block::Paragraph(inl) => if !rendered_first {
                "<p>"@ + cb + list_inline_html(inl@) + "</p>\n"@ + loose_from_hl(bs, i + 1, true, cb, hl)
            } else {
                block_html_hl(bs[i], hl) + loose_from_hl(bs, i + 1, rendered_first, cb, hl)
            },
            _ => block_html_hl(bs[i], hl) + loose_from_hl(bs, i + 1, rendered_first, cb, hl),
        }
    }
}

/// Without a highlighter, the rendering is that of [`block_html`].
pub proof fn lemma_block_hl_none(b: Block)
    ensures
        block_html_hl(b, None) == block_html(b),
    decreases b, 1nat,
{
    match b {
        Block::BlockQuote(children) => {
            lemma_blocks_hl_none(children@);
        },
        Block::List(list) => {
            lemma_items_hl_none(list.items@, list.tight);
        },
        _ => {},
    }
}

pub proof fn lemma_blocks_hl_none(bs: Seq<Block>)
    ensures
        blocks_html_hl(bs, None) == blocks_html(bs),
    decreases bs, 1nat,
{
    if bs.len() > 0 {
        lemma_blocks_hl_none(bs.drop_last());
        lemma_block_hl_none(bs.last());
    }
}

pub proof fn lemma_items_hl_none(items: Seq<ListItem>, tight: bool)
    ensures
        items_html_hl(items, tight, None) == items_html(items, tight),
    decreases items, 1nat,
{
    if items.len() > 0 {
        lemma_items_hl_none(items.drop_last(), tight);
        lemma_item_hl_none(items.last(), tight);
    }
}

pub proof fn lemma_item_hl_none(item: ListItem, tight: bool)
    ensures
        item_html_hl(item, tight, None) == item_html(item, tight),
    decreases item, 1nat,
{
    let cb = task_checkbox(item.task);
    lemma_tight_hl_none("<li>"@, item.blocks@, 0, true, cb);
    lemma_loose_hl_none(item.blocks@, 0, false, cb);
}

proof fn lemma_tight_hl_none(cur: Seq<char>, bs: Seq<Block>, i: int, first: bool, cb: Seq<char>)
    ensures
        tight_from_hl(cur, bs, i, first, cb, None) == tight_from(cur, bs, i, first, cb),
    decreases bs, bs.len() - i,
{
    if 0 <= i < bs.len() {
        let c1 = if !ends_nl(cur) {
            cur.push('\n')
        } else {
            cur
        };
        let p1 = if i > 0 && !ends_nl(cur) {
            cur.push('\n')
        } else {
            cur
        };
        let p2 = if first {
            p1 + cb
        } else {
            p1
        };
        match bs[i] {
            Block::Paragraph(inl) => {
                lemma_tight_hl_none(p2 + list_inline_html(inl@), bs, i + 1, false, cb);
            },
            _ => {
                lemma_block_hl_none(bs[i]);
                lemma_tight_hl_none(c1 + block_html(bs[i]), bs, i + 1, first, cb);
            },
        }
    }
}

proof fn lemma_loose_hl_none(bs: Seq<Block>, i: int, rf: bool, cb: Seq<char>)
    ensures
        loose_from_hl(bs, i, rf, cb, None) == loose_from(bs, i, rf, cb),
    decreases bs, bs.len() - i,
{
    if 0 <= i < bs.len() {
        lemma_block_hl_none(bs[i]);
        lemma_loose_hl_none(bs, i + 1, true, cb);
        lemma_loose_hl_none(bs, i + 1, rf, cb);
    }
}

/// Render a [`Document`] to HTML. Frontmatter never renders; reference
/// definitions were resolved when the inlines were built.
pub fn render_html(doc: &Document) -> (r: String)
    ensures
        r@ == blocks_html(doc.blocks@),
{
    let mut out: Vec<char> = Vec::new();
    push_blocks_html(&mut out, &doc.blocks, None);
    proof {
        assert(crate::highlight::hl_stated(None));
        lemma_blocks_hl_none(doc.blocks@);
    }
    string_of(&out)
}

/// Render a [`Document`] to HTML with an optional highlighter: as
/// [`render_html`], with each code block's content given by the
/// highlighter for the block's language and text.
pub fn render_html_with_highlighter(doc: &Document, highlighter: Option<&dyn SyntaxHighlighter>) -> (r: String)
    ensures
        crate::highlight::hl_stated(highlighter) ==> r@ == blocks_html_hl(doc.blocks@, highlighter),
{
    let mut out: Vec<char> = Vec::new();
    push_blocks_html(&mut out, &doc.blocks, highlighter);
    string_of(&out)
}

} // verus!
