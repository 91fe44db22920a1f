//! The events of a document determine its HTML.
//!
//! Event runs split uniquely into their pieces (an opener through its
//! closer, or one leaf event), so two documents with the same events have
//! the same tree shape up to what the HTML does not show (emphasis
//! delimiters, link styles, heading and fence kinds, autolinks written as
//! links). The AST renderer gives both the same output.

use vstd::prelude::*;
use crate::ast::{Block, Inline, ListItem, TableCell};
use crate::stream::{block_events, blocks_events, inline_events, inlines_events, opt_str, EventV, TagEnd, TagV};
use crate::stream_html::{
    bal, dsum, wrap, container, ok_block, ok_blocks, ok_items, ok_item, ok_loose_from, ok_tight_children,
};

verus! {

broadcast use vstd::string::group_string_axioms;

// ---------------------------------------------------------------------------
// Unique splitting of event runs
// ---------------------------------------------------------------------------

/// A piece of a run: an opener through its closer, or one leaf event.
pub(crate) open spec fn atomic(x: Seq<EventV>) -> bool {
    bal(x) || (x.len() == 1 && !(x[0] is Start) && !(x[0] is End))
}

/// The pieces, one after another.
pub(crate) open spec fn concat(ps: Seq<Seq<EventV>>) -> Seq<EventV>
    decreases ps.len(),
{
    if ps.len() == 0 {
        Seq::empty()
    } else {
        concat(ps.drop_last()) + ps.last()
    }
}

pub(crate) open spec fn all_atomic(ps: Seq<Seq<EventV>>) -> bool {
    forall|k: int| 0 <= k < ps.len() ==> atomic(#[trigger] ps[k])
}

proof fn lemma_concat_front(ps: Seq<Seq<EventV>>)
    requires
        ps.len() > 0,
    ensures
        concat(ps) == ps[0] + concat(ps.skip(1)),
    decreases ps.len(),
{
    if ps.len() == 1 {
        assert(ps.skip(1) =~= Seq::<Seq<EventV>>::empty());
        assert(ps.drop_last() =~= Seq::<Seq<EventV>>::empty());
        assert(concat(ps) =~= ps[0] + concat(ps.skip(1)));
    } else {
        lemma_concat_front(ps.drop_last());
        assert(ps.skip(1).drop_last() =~= ps.drop_last().skip(1));
        assert(ps.skip(1).last() == ps.last());
        assert(ps.drop_last()[0] == ps[0]);
        assert(concat(ps) =~= ps[0] + concat(ps.skip(1)));
    }
}

proof fn lemma_atomic_prefix(x1: Seq<EventV>, y1: Seq<EventV>, x2: Seq<EventV>, y2: Seq<EventV>)
    requires
        atomic(x1),
        atomic(x2),
        x1 + y1 == x2 + y2,
    ensures
        x1 == x2,
{
    let z = x1 + y1;
    assert(z == x2 + y2);
    assert(x1.len() >= 1 && x2.len() >= 1);
    assert(z[0] == x1[0]);
    assert((x2 + y2)[0] == x2[0]);
    assert(x1[0] == x2[0]);
    if x1.len() < x2.len() {
        let n = x1.len() as int;
        assert forall|k: int| 0 <= k < n implies #[trigger] x2.take(n)[k] == x1[k] by {
            assert(z[k] == x1[k]);
            assert((x2 + y2)[k] == x2[k]);
        }
        assert(x2.take(n) =~= x1);
        if x1[0] is Start {
            assert(bal(x1));
            assert(bal(x2));
            assert(dsum(x2.take(n)) >= 1);
            assert(dsum(x1) == 0);
        } else {
            assert(x1.len() == 1);
            assert(!(x2[0] is Start));
            assert(x2.len() == 1);
        }
    } else if x2.len() < x1.len() {
        let n = x2.len() as int;
        assert forall|k: int| 0 <= k < n implies #[trigger] x1.take(n)[k] == x2[k] by {
            assert(z[k] == x1[k]);
            assert((x2 + y2)[k] == x2[k]);
        }
        assert(x1.take(n) =~= x2);
        if x2[0] is Start {
            assert(bal(x2));
            assert(bal(x1));
            assert(dsum(x1.take(n)) >= 1);
            assert(dsum(x2) == 0);
        } else {
            assert(x2.len() == 1);
            assert(!(x1[0] is Start));
            assert(x1.len() == 1);
        }
    }
    assert(x1.len() == x2.len());
    assert forall|k: int| 0 <= k < x1.len() implies #[trigger] x1[k] == x2[k] by {
        assert(z[k] == x1[k]);
        assert((x2 + y2)[k] == x2[k]);
    }
    assert(x1 =~= x2);
}

/// Runs made of pieces split into the same pieces.
pub(crate) proof fn lemma_unique(p1: Seq<Seq<EventV>>, p2: Seq<Seq<EventV>>)
    requires
        all_atomic(p1),
        all_atomic(p2),
        concat(p1) == concat(p2),
    ensures
        p1 == p2,
    decreases p1.len(),
{
    if p1.len() == 0 {
        if p2.len() > 0 {
            lemma_concat_front(p2);
            assert(atomic(p2[0]));
            assert(concat(p2).len() >= 1);
        }
        assert(p1 =~= p2);
    } else {
        lemma_concat_front(p1);
        assert(atomic(p1[0]));
        if p2.len() == 0 {
            assert(concat(p1).len() >= 1);
        }
        lemma_concat_front(p2);
        assert(atomic(p2[0]));
        lemma_atomic_prefix(p1[0], concat(p1.skip(1)), p2[0], concat(p2.skip(1)));
        let c1 = concat(p1.skip(1));
        let c2 = concat(p2.skip(1));
        assert(p1[0] + c1 == p2[0] + c2);
        assert((p1[0] + c1).len() == p1[0].len() + c1.len());
        assert((p2[0] + c2).len() == p2[0].len() + c2.len());
        assert(c1.len() == c2.len());
        assert(c1 =~= c2) by {
            let n = p1[0].len() as int;
            assert forall|k: int| 0 <= k < c1.len() implies #[trigger] c1[k] == c2[k] by {
                assert((p1[0] + c1)[n + k] == c1[k]);
                assert((p2[0] + c2)[n + k] == c2[k]);
            }
        }
        assert forall|k: int| 0 <= k < p1.skip(1).len() implies atomic(#[trigger] p1.skip(1)[k]) by {
            assert(atomic(p1[k + 1]));
        }
        assert forall|k: int| 0 <= k < p2.skip(1).len() implies atomic(#[trigger] p2.skip(1)[k]) by {
            assert(atomic(p2[k + 1]));
        }
        lemma_unique(p1.skip(1), p2.skip(1));
        assert(p1 =~= seq![p1[0]] + p1.skip(1));
        assert(p2 =~= seq![p2[0]] + p2.skip(1));
    }
}

proof fn lemma_wrap_inj(o1: EventV, m1: Seq<EventV>, c1: EventV, o2: EventV, m2: Seq<EventV>, c2: EventV)
    requires
        wrap(o1, m1, c1) == wrap(o2, m2, c2),
    ensures
        o1 == o2,
        m1 == m2,
        c1 == c2,
{
    let w = wrap(o1, m1, c1);
    assert(w[0] == o1);
    assert(wrap(o2, m2, c2)[0] == o2);
    assert(m1.len() == m2.len());
    assert forall|k: int| 0 <= k < m1.len() implies #[trigger] m1[k] == m2[k] by {
        assert(w[k + 1] == m1[k]);
        assert(wrap(o2, m2, c2)[k + 1] == m2[k]);
    }
    assert(m1 =~= m2);
    assert(w[w.len() - 1] == c1);
    assert(wrap(o2, m2, c2)[w.len() - 1] == c2);
}

// ---------------------------------------------------------------------------
// Pieces of each kind of run
// ---------------------------------------------------------------------------

pub(crate) open spec fn inline_pieces(s: Seq<Inline>) -> Seq<Seq<EventV>> {
    Seq::new(s.len(), |k: int| inline_events(s[k]))
}

proof fn lemma_inline_pieces(s: Seq<Inline>)
    ensures
        inlines_events(s) == concat(inline_pieces(s)),
        all_atomic(inline_pieces(s)),
    decreases s.len(),
{
    if s.len() > 0 {
        lemma_inline_pieces(s.drop_last());
        assert(inline_pieces(s).drop_last() =~= inline_pieces(s.drop_last()));
    } else {
        assert(inline_pieces(s) =~= Seq::<Seq<EventV>>::empty());
    }
    assert forall|k: int| 0 <= k < s.len() implies atomic(#[trigger] inline_pieces(s)[k]) by {
        crate::stream_html::lemma_inline_nn(s[k]);
        crate::stream_html::lemma_inline_shape(s[k]);
    }
}

/// Equal inline runs come from equally long lists of inlines with equal
/// events.
proof fn lemma_inlines_split(s1: Seq<Inline>, s2: Seq<Inline>)
    requires
        inlines_events(s1) == inlines_events(s2),
    ensures
        s1.len() == s2.len(),
        forall|k: int| 0 <= k < s1.len() ==> inline_events(#[trigger] s1[k]) == inline_events(s2[k]),
{
    lemma_inline_pieces(s1);
    lemma_inline_pieces(s2);
    lemma_unique(inline_pieces(s1), inline_pieces(s2));
    assert forall|k: int| 0 <= k < s1.len() implies inline_events(#[trigger] s1[k]) == inline_events(s2[k]) by {
        assert(inline_pieces(s1)[k] == inline_pieces(s2)[k]);
    }
}

pub(crate) open spec fn block_pieces(s: Seq<Block>) -> Seq<Seq<EventV>> {
    Seq::new(s.len(), |k: int| block_events(s[k]))
}

proof fn lemma_block_pieces(s: Seq<Block>)
    ensures
        blocks_events(s) == concat(block_pieces(s)),
        all_atomic(block_pieces(s)),
    decreases s.len(),
{
    if s.len() > 0 {
        lemma_block_pieces(s.drop_last());
        assert(block_pieces(s).drop_last() =~= block_pieces(s.drop_last()));
    } else {
        assert(block_pieces(s) =~= Seq::<Seq<EventV>>::empty());
    }
    assert forall|k: int| 0 <= k < s.len() implies atomic(#[trigger] block_pieces(s)[k]) by {
        crate::stream_html::lemma_block_nn(s[k]);
    }
}

proof fn lemma_blocks_split(s1: Seq<Block>, s2: Seq<Block>)
    requires
        blocks_events(s1) == blocks_events(s2),
    ensures
        s1.len() == s2.len(),
        forall|k: int| 0 <= k < s1.len() ==> block_events(#[trigger] s1[k]) == block_events(s2[k]),
{
    lemma_block_pieces(s1);
    lemma_block_pieces(s2);
    lemma_unique(block_pieces(s1), block_pieces(s2));
    assert forall|k: int| 0 <= k < s1.len() implies block_events(#[trigger] s1[k]) == block_events(s2[k]) by {
        assert(block_pieces(s1)[k] == block_pieces(s2)[k]);
    }
}

pub(crate) open spec fn item_pieces(s: Seq<ListItem>) -> Seq<Seq<EventV>> {
    Seq::new(s.len(), |k: int| crate::stream::item_events(s[k]))
}

proof fn lemma_items_split(s1: Seq<ListItem>, s2: Seq<ListItem>)
    requires
        crate::stream::items_events(s1) == crate::stream::items_events(s2),
    ensures
        s1.len() == s2.len(),
        forall|k: int|
            0 <= k < s1.len() ==> crate::stream::item_events(#[trigger] s1[k])
                == crate::stream::item_events(s2[k]),
{
    lemma_item_pieces(s1);
    lemma_item_pieces(s2);
    lemma_unique(item_pieces(s1), item_pieces(s2));
    assert forall|k: int| 0 <= k < s1.len() implies crate::stream::item_events(#[trigger] s1[k])
        == crate::stream::item_events(s2[k]) by {
        assert(item_pieces(s1)[k] == item_pieces(s2)[k]);
    }
}

proof fn lemma_item_pieces(s: Seq<ListItem>)
    ensures
        crate::stream::items_events(s) == concat(item_pieces(s)),
        all_atomic(item_pieces(s)),
    decreases s.len(),
{
    if s.len() > 0 {
        lemma_item_pieces(s.drop_last());
        assert(item_pieces(s).drop_last() =~= item_pieces(s.drop_last()));
    } else {
        assert(item_pieces(s) =~= Seq::<Seq<EventV>>::empty());
    }
    assert forall|k: int| 0 <= k < s.len() implies atomic(#[trigger] item_pieces(s)[k]) by {
        crate::stream_html::lemma_item_nn(s[k]);
    }
}

pub(crate) open spec fn cell_pieces(s: Seq<TableCell>) -> Seq<Seq<EventV>> {
    Seq::new(s.len(), |k: int| crate::stream_html::cell_events(s[k]))
}

proof fn lemma_cell_pieces(s: Seq<TableCell>)
    ensures
        crate::stream::cells_events(s) == concat(cell_pieces(s)),
        all_atomic(cell_pieces(s)),
    decreases s.len(),
{
    if s.len() > 0 {
        lemma_cell_pieces(s.drop_last());
        assert(cell_pieces(s).drop_last() =~= cell_pieces(s.drop_last()));
        assert(crate::stream::cells_events(s) =~= crate::stream::cells_events(s.drop_last())
            + crate::stream_html::cell_events(s.last()));
    } else {
        assert(cell_pieces(s) =~= Seq::<Seq<EventV>>::empty());
    }
    assert forall|k: int| 0 <= k < s.len() implies atomic(#[trigger] cell_pieces(s)[k]) by {
        crate::stream_html::lemma_inlines_nn(s[k].content@);
        crate::stream_html::lemma_wrap_bal(
            EventV::Start(TagV::TableCell),
            inlines_events(s[k].content@),
            EventV::End(TagEnd::TableCell),
        );
        assert(crate::stream_html::cell_events(s[k]) == wrap(
            EventV::Start(TagV::TableCell),
            inlines_events(s[k].content@),
            EventV::End(TagEnd::TableCell),
        ));
    }
}

proof fn lemma_cells_split(s1: Seq<TableCell>, s2: Seq<TableCell>)
    requires
        crate::stream::cells_events(s1) == crate::stream::cells_events(s2),
    ensures
        s1.len() == s2.len(),
        forall|k: int|
            0 <= k < s1.len() ==> inlines_events((#[trigger] s1[k]).content@) == inlines_events(
                s2[k].content@,
            ),
{
    lemma_cell_pieces(s1);
    lemma_cell_pieces(s2);
    lemma_unique(cell_pieces(s1), cell_pieces(s2));
    assert forall|k: int| 0 <= k < s1.len() implies inlines_events((#[trigger] s1[k]).content@)
        == inlines_events(s2[k].content@) by {
        assert(cell_pieces(s1)[k] == cell_pieces(s2)[k]);
        lemma_wrap_inj(
            EventV::Start(TagV::TableCell),
            inlines_events(s1[k].content@),
            EventV::End(TagEnd::TableCell),
            EventV::Start(TagV::TableCell),
            inlines_events(s2[k].content@),
            EventV::End(TagEnd::TableCell),
        );
    }
}

pub(crate) open spec fn row_pieces(s: Seq<Vec<TableCell>>) -> Seq<Seq<EventV>> {
    Seq::new(s.len(), |k: int| crate::stream_html::row_events(s[k]@))
}

proof fn lemma_row_pieces(s: Seq<Vec<TableCell>>)
    ensures
        crate::stream::rows_events(s) == concat(row_pieces(s)),
        all_atomic(row_pieces(s)),
    decreases s.len(),
{
    if s.len() > 0 {
        lemma_row_pieces(s.drop_last());
        assert(row_pieces(s).drop_last() =~= row_pieces(s.drop_last()));
        assert(crate::stream::rows_events(s) =~= crate::stream::rows_events(s.drop_last())
            + crate::stream_html::row_events(s.last()@));
    } else {
        assert(row_pieces(s) =~= Seq::<Seq<EventV>>::empty());
    }
    assert forall|k: int| 0 <= k < s.len() implies atomic(#[trigger] row_pieces(s)[k]) by {
        crate::stream_html::lemma_cells_nn(s[k]@);
        crate::stream_html::lemma_wrap_bal(
            EventV::Start(TagV::TableRow),
            crate::stream::cells_events(s[k]@),
            EventV::End(TagEnd::TableRow),
        );
        assert(crate::stream_html::row_events(s[k]@) == wrap(
            EventV::Start(TagV::TableRow),
            crate::stream::cells_events(s[k]@),
            EventV::End(TagEnd::TableRow),
        ));
    }
}

proof fn lemma_rows_split(s1: Seq<Vec<TableCell>>, s2: Seq<Vec<TableCell>>)
    requires
        crate::stream::rows_events(s1) == crate::stream::rows_events(s2),
    ensures
        s1.len() == s2.len(),
        forall|k: int|
            0 <= k < s1.len() ==> crate::stream::cells_events((#[trigger] s1[k])@)
                == crate::stream::cells_events(s2[k]@),
{
    lemma_row_pieces(s1);
    lemma_row_pieces(s2);
    lemma_unique(row_pieces(s1), row_pieces(s2));
    assert forall|k: int| 0 <= k < s1.len() implies crate::stream::cells_events((#[trigger] s1[k])@)
        == crate::stream::cells_events(s2[k]@) by {
        assert(row_pieces(s1)[k] == row_pieces(s2)[k]);
        lemma_wrap_inj(
            EventV::Start(TagV::TableRow),
            crate::stream::cells_events(s1[k]@),
            EventV::End(TagEnd::TableRow),
            EventV::Start(TagV::TableRow),
            crate::stream::cells_events(s2[k]@),
            EventV::End(TagEnd::TableRow),
        );
    }
}

// ---------------------------------------------------------------------------
// Inline HTML is a function of inline events
// ---------------------------------------------------------------------------

/// The inlines inside a container.
pub(crate) open spec fn inner_inlines(i: Inline) -> Seq<Inline> {
    match i {
        Inline::Emphasis { content, .. } => content@,
        Inline::Strong { content, .. } => content@,
        Inline::Strikethrough(content) => content@,
        Inline::Link(link) => link.text@,
        Inline::Autolink(a) => seq![Inline::Text(a.text)],
        _ => Seq::empty(),
    }
}

/// The HTML of a container from its opening event and its inner HTML.
pub(crate) open spec fn container_html(e0: EventV, inner: Seq<char>) -> Seq<char> {
    match e0 {
        EventV::Start(TagV::Emphasis) => "<em>"@ + inner + "</em>"@,
        EventV::Start(TagV::Strong) => "<strong>"@ + inner + "</strong>"@,
        EventV::Start(TagV::Strikethrough) => "<del>"@ + inner + "</del>"@,
        EventV::Start(TagV::Link { url, title }) => crate::stream_html::link_open(url, title) + inner
            + "</a>"@,
        EventV::Start(TagV::Image { alt, url, title }) => crate::stream_html::image_html(
            alt,
            url,
            title,
        ),
        _ => Seq::empty(),
    }
}

proof fn lemma_container_shape(i: Inline)
    requires
        container(i),
    ensures
        inline_events(i) == wrap(
            inline_events(i)[0],
            inlines_events(inner_inlines(i)),
            inline_events(i).last(),
        ),
        crate::ast::inline_html(i) == container_html(
            inline_events(i)[0],
            crate::ast::list_inline_html(inner_inlines(i)),
        ),
{
    reveal_with_fuel(inlines_events, 2);
    reveal_with_fuel(crate::ast::list_inline_html, 2);
    assert(inline_events(i) =~= wrap(
        inline_events(i)[0],
        inlines_events(inner_inlines(i)),
        inline_events(i).last(),
    ));
    match i {
        Inline::Link(link) => {
            let inner = crate::ast::list_inline_html(link.text@);
            assert(crate::ast::inline_html(i) =~= crate::stream_html::link_open(link.url@, opt_str(link.title)) + inner + "</a>"@);
        },
        Inline::Autolink(a) => {
            let inner = crate::html_escape::spec_escape_html(a.text@);
            assert(crate::ast::list_inline_html(inner_inlines(i)) =~= inner);
            assert(crate::ast::inline_html(i) =~= crate::stream_html::link_open(a.url@, None) + inner + "</a>"@);
        },
        _ => {},
    }
}

pub(crate) proof fn lemma_inline_det(i1: Inline, i2: Inline)
    requires
        inline_events(i1) == inline_events(i2),
    ensures
        crate::ast::inline_html(i1) == crate::ast::inline_html(i2),
    decreases inline_events(i1).len(), 0int,
{
    crate::stream_html::lemma_inline_shape(i1);
    crate::stream_html::lemma_inline_shape(i2);
    if container(i1) {
        assert(container(i2));
        lemma_container_shape(i1);
        lemma_container_shape(i2);
        lemma_wrap_inj(
            inline_events(i1)[0],
            inlines_events(inner_inlines(i1)),
            inline_events(i1).last(),
            inline_events(i2)[0],
            inlines_events(inner_inlines(i2)),
            inline_events(i2).last(),
        );
        lemma_inlines_det(inner_inlines(i1), inner_inlines(i2));
    }
}

pub(crate) proof fn lemma_inlines_det(s1: Seq<Inline>, s2: Seq<Inline>)
    requires
        inlines_events(s1) == inlines_events(s2),
    ensures
        crate::ast::list_inline_html(s1) == crate::ast::list_inline_html(s2),
    decreases inlines_events(s1).len(), 2int,
{
    lemma_inlines_split(s1, s2);
    lemma_lih_eq(s1, s2);
}

proof fn lemma_lih_eq(s1: Seq<Inline>, s2: Seq<Inline>)
    requires
        s1.len() == s2.len(),
        forall|k: int| 0 <= k < s1.len() ==> inline_events(#[trigger] s1[k]) == inline_events(s2[k]),
    ensures
        crate::ast::list_inline_html(s1) == crate::ast::list_inline_html(s2),
    decreases inlines_events(s1).len(), 1int,
{
    if s1.len() > 0 {
        let n = s1.len() - 1;
        crate::stream_html::lemma_inline_shape(s1[n]);
        assert(inline_events(s1.last()) == inline_events(s2.last()));
        lemma_inline_det(s1.last(), s2.last());
        assert forall|k: int| 0 <= k < s1.drop_last().len() implies inline_events(#[trigger] s1.drop_last()[k]) == inline_events(s2.drop_last()[k]) by {
            assert(inline_events(s1[k]) == inline_events(s2[k]));
        }
        lemma_lih_eq(s1.drop_last(), s2.drop_last());
    }
}

// ---------------------------------------------------------------------------
// Block HTML is a function of block events
// ---------------------------------------------------------------------------

/// Every indented code block in `b` carries no language (the events do not
/// tell indented code from fenced code).
pub open spec fn code_ok(b: Block) -> bool
    decreases b, 1nat,
{
    match b {
        Block::CodeBlock(code) => code.kind is Indented ==> crate::highlight::spec_language(
            code.info@,
        ).len() == 0,
        Block::BlockQuote(children) => code_ok_all(children@),
        Block::List(list) => code_ok_items(list.items@),
        _ => true,
    }
}

pub open spec fn code_ok_all(bs: Seq<Block>) -> bool
    decreases bs, 0nat,
{
    if bs.len() == 0 {
        true
    } else {
        code_ok_all(bs.drop_last()) && code_ok(bs.last())
    }
}

pub open spec fn code_ok_items(items: Seq<ListItem>) -> bool
    decreases items, 0nat,
{
    if items.len() == 0 {
        true
    } else {
        code_ok_items(items.drop_last()) && code_ok_all(items.last().blocks@)
    }
}

proof fn lemma_code_ok_all_at(bs: Seq<Block>, k: int)
    requires
        code_ok_all(bs),
        0 <= k < bs.len(),
    ensures
        code_ok(bs[k]),
    decreases bs.len(),
{
    if k < bs.len() - 1 {
        lemma_code_ok_all_at(bs.drop_last(), k);
    }
}

proof fn lemma_code_ok_items_at(items: Seq<ListItem>, k: int)
    requires
        code_ok_items(items),
        0 <= k < items.len(),
    ensures
        code_ok_all(items[k].blocks@),
    decreases items.len(),
{
    if k < items.len() - 1 {
        lemma_code_ok_items_at(items.drop_last(), k);
    }
}

/// `code_ok_all` from a fact about every block.
pub(crate) proof fn lemma_code_ok_all_from(bs: Seq<Block>)
    requires
        forall|k: int| 0 <= k < bs.len() ==> code_ok(#[trigger] bs[k]),
    ensures
        code_ok_all(bs),
    decreases bs.len(),
{
    if bs.len() > 0 {
        assert forall|k: int| 0 <= k < bs.drop_last().len() implies code_ok(#[trigger] bs.drop_last()[k]) by {
            assert(code_ok(bs[k]));
        }
        lemma_code_ok_all_from(bs.drop_last());
        assert(code_ok(bs[bs.len() - 1]));
    }
}

/// A block whose indented code carries no language is one the walk
/// renders as the AST renderer does.
pub(crate) proof fn lemma_code_ok_block(b: Block)
    requires
        code_ok(b),
    ensures
        crate::stream_html::ok_block(b),
    decreases b, 3nat,
{
    match b {
        Block::BlockQuote(children) => {
            assert(decreases_to!(b => children));
            assert(decreases_to!(children => children@));
            lemma_code_ok_blocks(children@);
        },
        Block::List(list) => {
            assert(decreases_to!(b => list));
            assert(decreases_to!(list => list.items));
            assert(decreases_to!(list.items => list.items@));
            lemma_code_ok_items_ok(list.items@, list.tight);
        },
        _ => {},
    }
}

pub(crate) proof fn lemma_code_ok_blocks(bs: Seq<Block>)
    requires
        code_ok_all(bs),
    ensures
        crate::stream_html::ok_blocks(bs),
    decreases bs, 1nat,
{
    if bs.len() > 0 {
        lemma_code_ok_blocks(bs.drop_last());
        lemma_code_ok_block(bs.last());
    }
}

proof fn lemma_code_ok_tight(bs: Seq<Block>)
    requires
        code_ok_all(bs),
    ensures
        crate::stream_html::ok_tight_children(bs),
    decreases bs, 1nat,
{
    if bs.len() > 0 {
        lemma_code_ok_tight(bs.drop_last());
        lemma_code_ok_block(bs.last());
    }
}

proof fn lemma_code_ok_loose(bs: Seq<Block>, i: int, rf: bool)
    requires
        code_ok_all(bs),
        0 <= i,
    ensures
        crate::stream_html::ok_loose_from(bs, i, rf),
    decreases bs, bs.len() - i,
{
    if i < bs.len() {
        lemma_code_ok_all_at(bs, i);
        lemma_code_ok_block(bs[i]);
        lemma_code_ok_loose(bs, i + 1, true);
        lemma_code_ok_loose(bs, i + 1, rf);
    }
}

proof fn lemma_code_ok_items_ok(items: Seq<ListItem>, tight: bool)
    requires
        code_ok_items(items),
    ensures
        crate::stream_html::ok_items(items, tight),
    decreases items, 1nat,
{
    if items.len() > 0 {
        lemma_code_ok_items_ok(items.drop_last(), tight);
        let it = items.last();
        assert(code_ok_all(it.blocks@));
        lemma_code_ok_tight(it.blocks@);
        lemma_code_ok_loose(it.blocks@, 0, false);
        assert(crate::stream_html::ok_item(it, tight));
        assert(crate::stream_html::ok_items(items.drop_last(), tight));
    }
}

/// `code_ok_items` from a fact about every item.
pub(crate) proof fn lemma_code_ok_items_from(items: Seq<ListItem>)
    requires
        forall|k: int| 0 <= k < items.len() ==> code_ok_all(#[trigger] items[k].blocks@),
    ensures
        code_ok_items(items),
    decreases items.len(),
{
    if items.len() > 0 {
        assert forall|k: int| 0 <= k < items.drop_last().len() implies code_ok_all(#[trigger] items.drop_last()[k].blocks@) by {
            assert(code_ok_all(items[k].blocks@));
        }
        lemma_code_ok_items_from(items.drop_last());
        assert(code_ok_all(items[items.len() - 1].blocks@));
    }
}

proof fn lemma_concat_piece_le(ps: Seq<Seq<EventV>>, k: int)
    requires
        0 <= k < ps.len(),
    ensures
        ps[k].len() <= concat(ps).len(),
    decreases ps.len(),
{
    if k < ps.len() - 1 {
        lemma_concat_piece_le(ps.drop_last(), k);
    }
}

spec fn bkind(b: Block) -> int {
    match b {
        Block::Paragraph(_) => 0,
        Block::Heading(_) => 1,
        Block::ThematicBreak(_) => 2,
        Block::CodeBlock(_) => 3,
        Block::HtmlBlock(_) => 4,
        Block::BlockQuote(_) => 5,
        Block::List(_) => 6,
        Block::Table(_) => 7,
    }
}

spec fn ekind(e: EventV) -> int {
    match e {
        EventV::Start(TagV::Paragraph) => 0,
        EventV::Start(TagV::Heading { .. }) => 1,
        EventV::Rule => 2,
        EventV::Start(TagV::CodeBlock { .. }) => 3,
        EventV::Start(TagV::HtmlBlock) => 4,
        EventV::Start(TagV::BlockQuote) => 5,
        EventV::Start(TagV::List { .. }) => 6,
        EventV::Start(TagV::Table { .. }) => 7,
        _ => -1,
    }
}

/// What rendering needs of two blocks with equal events.
pub(crate) open spec fn same_render(b1: Block, b2: Block, hl: Option<&dyn crate::highlight::SyntaxHighlighter>) -> bool {
    &&& crate::ast::block_html_hl(b1, hl) == crate::ast::block_html_hl(b2, hl)
    &&& (b1 is Paragraph) == (b2 is Paragraph)
    &&& b1 is Paragraph ==> crate::ast::list_inline_html(b1->Paragraph_0@)
        == crate::ast::list_inline_html(b2->Paragraph_0@) && (b1->Paragraph_0@.len() == 0)
        == (b2->Paragraph_0@.len() == 0)
}

proof fn lemma_raw_lines_eq(l1: Seq<String>, l2: Seq<String>)
    requires
        crate::stream::html_line_events(l1) == crate::stream::html_line_events(l2),
    ensures
        crate::ast::raw_lines_html(l1) == crate::ast::raw_lines_html(l2),
    decreases l1.len(),
{
    crate::stream_html::lemma_html_lines(l1);
    crate::stream_html::lemma_html_lines(l2);
    if l1.len() > 0 {
        let n = l1.len() - 1;
        assert(crate::stream::html_line_events(l1)[n] == EventV::Html(l1[n]@));
        assert(crate::stream::html_line_events(l2)[n] == EventV::Html(l2[n]@));
        assert(crate::stream::html_line_events(l1.drop_last()) =~= crate::stream::html_line_events(l1).drop_last());
        assert(crate::stream::html_line_events(l2.drop_last()) =~= crate::stream::html_line_events(l2).drop_last());
        lemma_raw_lines_eq(l1.drop_last(), l2.drop_last());
    }
}

proof fn lemma_cells_html_eq(tag: Seq<char>, c1: Seq<TableCell>, c2: Seq<TableCell>, a: Seq<crate::ast::Alignment>)
    requires
        c1.len() == c2.len(),
        forall|k: int| 0 <= k < c1.len() ==> inlines_events((#[trigger] c1[k]).content@) == inlines_events(c2[k].content@),
    ensures
        crate::ast::cells_html(tag, c1, a) == crate::ast::cells_html(tag, c2, a),
    decreases c1.len(),
{
    if c1.len() > 0 {
        let n = c1.len() - 1;
        assert(inlines_events(c1[n].content@) == inlines_events(c2[n].content@));
        lemma_inlines_det(c1[n].content@, c2[n].content@);
        assert forall|k: int| 0 <= k < c1.drop_last().len() implies inlines_events((#[trigger] c1.drop_last()[k]).content@) == inlines_events(c2.drop_last()[k].content@) by {
            assert(inlines_events(c1[k].content@) == inlines_events(c2[k].content@));
        }
        lemma_cells_html_eq(tag, c1.drop_last(), c2.drop_last(), a);
    }
}

proof fn lemma_rows_html_eq(r1: Seq<Vec<TableCell>>, r2: Seq<Vec<TableCell>>, a: Seq<crate::ast::Alignment>)
    requires
        crate::stream::rows_events(r1) == crate::stream::rows_events(r2),
    ensures
        crate::ast::rows_html(r1, a) == crate::ast::rows_html(r2, a),
    decreases r1.len(),
{
    lemma_rows_split(r1, r2);
    if r1.len() > 0 {
        let n = r1.len() - 1;
        assert(crate::stream::cells_events(r1[n]@) == crate::stream::cells_events(r2[n]@));
        lemma_cells_split(r1[n]@, r2[n]@);
        lemma_cells_html_eq("td"@, r1[n]@, r2[n]@, a);
        lemma_row_pieces(r1.drop_last());
        lemma_row_pieces(r2.drop_last());
        assert(row_pieces(r1.drop_last()) =~= row_pieces(r2.drop_last())) by {
            assert forall|k: int| 0 <= k < r1.len() - 1 implies #[trigger] row_pieces(r1.drop_last())[k] == row_pieces(r2.drop_last())[k] by {
                assert(crate::stream::cells_events(r1[k]@) == crate::stream::cells_events(r2[k]@));
            }
        }
        lemma_rows_html_eq(r1.drop_last(), r2.drop_last(), a);
    }
}

proof fn lemma_tight_from_eq(cur: Seq<char>, bs1: Seq<Block>, bs2: Seq<Block>, i: int, first: bool, cb: Seq<char>, hl: Option<&dyn crate::highlight::SyntaxHighlighter>)
    requires
        bs1.len() == bs2.len(),
        forall|k: int| 0 <= k < bs1.len() ==> same_render(#[trigger] bs1[k], bs2[k], hl),
    ensures
        crate::ast::tight_from_hl(cur, bs1, i, first, cb, hl) == crate::ast::tight_from_hl(cur, bs2, i, first, cb, hl),
    decreases bs1.len() - i,
{
    if 0 <= i < bs1.len() {
        assert(same_render(bs1[i], bs2[i], hl));
        let c1 = if !crate::ast::ends_nl(cur) { cur.push('\n') } else { cur };
        let p1 = if i > 0 && !crate::ast::ends_nl(cur) { cur.push('\n') } else { cur };
        let p2 = if first { p1 + cb } else { p1 };
        match bs1[i] {
            Block::Paragraph(v) => {
                lemma_tight_from_eq(p2 + crate::ast::list_inline_html(v@), bs1, bs2, i + 1, false, cb, hl);
            },
            _ => {
                lemma_tight_from_eq(c1 + crate::ast::block_html_hl(bs1[i], hl), bs1, bs2, i + 1, first, cb, hl);
            },
        }
    }
}

proof fn lemma_loose_from_eq(bs1: Seq<Block>, bs2: Seq<Block>, i: int, rf: bool, cb: Seq<char>, hl: Option<&dyn crate::highlight::SyntaxHighlighter>)
    requires
        bs1.len() == bs2.len(),
        forall|k: int| 0 <= k < bs1.len() ==> same_render(#[trigger] bs1[k], bs2[k], hl),
    ensures
        crate::ast::loose_from_hl(bs1, i, rf, cb, hl) == crate::ast::loose_from_hl(bs2, i, rf, cb, hl),
    decreases bs1.len() - i,
{
    if 0 <= i < bs1.len() {
        assert(same_render(bs1[i], bs2[i], hl));
        lemma_loose_from_eq(bs1, bs2, i + 1, true, cb, hl);
        lemma_loose_from_eq(bs1, bs2, i + 1, rf, cb, hl);
    }
}

proof fn lemma_blocks_html_eq(bs1: Seq<Block>, bs2: Seq<Block>, hl: Option<&dyn crate::highlight::SyntaxHighlighter>)
    requires
        bs1.len() == bs2.len(),
        forall|k: int| 0 <= k < bs1.len() ==> same_render(#[trigger] bs1[k], bs2[k], hl),
    ensures
        crate::ast::blocks_html_hl(bs1, hl) == crate::ast::blocks_html_hl(bs2, hl),
    decreases bs1.len(),
{
    if bs1.len() > 0 {
        assert(same_render(bs1[bs1.len() - 1], bs2[bs1.len() - 1], hl));
        assert forall|k: int| 0 <= k < bs1.drop_last().len() implies same_render(#[trigger] bs1.drop_last()[k], bs2.drop_last()[k], hl) by {
            assert(same_render(bs1[k], bs2[k], hl));
        }
        lemma_blocks_html_eq(bs1.drop_last(), bs2.drop_last(), hl);
    }
}

proof fn lemma_items_html_eq(i1: Seq<ListItem>, i2: Seq<ListItem>, tight: bool, hl: Option<&dyn crate::highlight::SyntaxHighlighter>)
    requires
        i1.len() == i2.len(),
        forall|k: int| 0 <= k < i1.len() ==> crate::ast::item_html_hl(#[trigger] i1[k], tight, hl) == crate::ast::item_html_hl(i2[k], tight, hl),
    ensures
        crate::ast::items_html_hl(i1, tight, hl) == crate::ast::items_html_hl(i2, tight, hl),
    decreases i1.len(),
{
    if i1.len() > 0 {
        assert(crate::ast::item_html_hl(i1[i1.len() - 1], tight, hl) == crate::ast::item_html_hl(i2[i1.len() - 1], tight, hl));
        assert forall|k: int| 0 <= k < i1.drop_last().len() implies crate::ast::item_html_hl(#[trigger] i1.drop_last()[k], tight, hl) == crate::ast::item_html_hl(i2.drop_last()[k], tight, hl) by {
            assert(crate::ast::item_html_hl(i1[k], tight, hl) == crate::ast::item_html_hl(i2[k], tight, hl));
        }
        lemma_items_html_eq(i1.drop_last(), i2.drop_last(), tight, hl);
    }
}

proof fn lemma_det_code(b1: Block, b2: Block, hl: Option<&dyn crate::highlight::SyntaxHighlighter>)
    requires
        block_events(b1) == block_events(b2),
        b1 is CodeBlock,
        code_ok(b1),
        code_ok(b2),
    ensures
        same_render(b1, b2, hl),
{
    assert(bkind(b1) == ekind(block_events(b1)[0]));
    assert(bkind(b2) == ekind(block_events(b2)[0]));
    let e0 = block_events(b1)[0];
    let c1 = b1->CodeBlock_0;
        let c2 = b2->CodeBlock_0;
        let m1: Seq<EventV> = if c1.lines@.len() > 0 { seq![EventV::Text(crate::stream::code_text(c1.lines@))] } else { Seq::empty() };
        let m2: Seq<EventV> = if c2.lines@.len() > 0 { seq![EventV::Text(crate::stream::code_text(c2.lines@))] } else { Seq::empty() };
        lemma_wrap_inj(e0, m1, EventV::End(TagEnd::CodeBlock), block_events(b2)[0], m2, EventV::End(TagEnd::CodeBlock));
        assert(c1.info@ == c2.info@);
        crate::stream_html::lemma_code_text_html(c1.lines@);
        crate::stream_html::lemma_code_text_html(c2.lines@);
        if c1.lines@.len() > 0 {
            assert(m1[0] == m2[0]);
        }
        assert(crate::ast::code_lines_html(c1.lines@) == crate::ast::code_lines_html(c2.lines@));
        if c1.lines@.len() == 0 {
            assert(c2.lines@.len() == 0);
            assert(c1.lines@ =~= c2.lines@);
        }
        assert(crate::stream::code_text(c1.lines@) == crate::stream::code_text(c2.lines@));
        assert(crate::ast::code_body_html(c1, hl) == crate::ast::code_body_html(c2, hl));
        reveal_strlit("<pre><code");
        reveal_strlit("<pre><code>");
        reveal_strlit(">");
        let body = crate::ast::code_body_html(c1, hl);
        let canon = "<pre><code"@ + crate::ast::fence_class(c1.info@) + ">"@ + body + "</code></pre>\n"@;
        assert(crate::ast::block_html_hl(b1, hl) =~= canon);
        assert(crate::ast::block_html_hl(b2, hl) =~= canon);
    }

proof fn lemma_det_table(b1: Block, b2: Block, hl: Option<&dyn crate::highlight::SyntaxHighlighter>)
    requires
        block_events(b1) == block_events(b2),
        b1 is Table,
        code_ok(b1),
        code_ok(b2),
    ensures
        same_render(b1, b2, hl),
{
    assert(bkind(b1) == ekind(block_events(b1)[0]));
    assert(bkind(b2) == ekind(block_events(b2)[0]));
    let e0 = block_events(b1)[0];
    let t1 = *(b1->Table_0);
        let t2 = *(b2->Table_0);
        let h1 = crate::stream_html::head_events(t1.header@);
        let h2 = crate::stream_html::head_events(t2.header@);
        let r1 = crate::stream::rows_events(t1.rows@);
        let r2 = crate::stream::rows_events(t2.rows@);
        assert(block_events(b1) =~= wrap(e0, h1 + r1, EventV::End(TagEnd::Table)));
        assert(block_events(b2) =~= wrap(block_events(b2)[0], h2 + r2, EventV::End(TagEnd::Table)));
        lemma_wrap_inj(e0, h1 + r1, EventV::End(TagEnd::Table), block_events(b2)[0], h2 + r2, EventV::End(TagEnd::Table));
        assert(t1.alignments@ == t2.alignments@);
        crate::stream_html::lemma_cells_nn(t1.header@);
        crate::stream_html::lemma_cells_nn(t2.header@);
        crate::stream_html::lemma_wrap_bal(EventV::Start(TagV::TableHead), crate::stream::cells_events(t1.header@), EventV::End(TagEnd::TableHead));
        crate::stream_html::lemma_wrap_bal(EventV::Start(TagV::TableHead), crate::stream::cells_events(t2.header@), EventV::End(TagEnd::TableHead));
        assert(h1 == wrap(EventV::Start(TagV::TableHead), crate::stream::cells_events(t1.header@), EventV::End(TagEnd::TableHead)));
        assert(h2 == wrap(EventV::Start(TagV::TableHead), crate::stream::cells_events(t2.header@), EventV::End(TagEnd::TableHead)));
        lemma_atomic_prefix(h1, r1, h2, r2);
        assert(r1 =~= r2) by {
            assert forall|k: int| 0 <= k < r1.len() implies #[trigger] r1[k] == r2[k] by {
                assert((h1 + r1)[h1.len() + k] == (h2 + r2)[h1.len() + k]);
            }
            assert((h1 + r1).len() == (h2 + r2).len());
        }
        lemma_wrap_inj(EventV::Start(TagV::TableHead), crate::stream::cells_events(t1.header@), EventV::End(TagEnd::TableHead), EventV::Start(TagV::TableHead), crate::stream::cells_events(t2.header@), EventV::End(TagEnd::TableHead));
        lemma_cells_split(t1.header@, t2.header@);
        lemma_cells_html_eq("th"@, t1.header@, t2.header@, t1.alignments@);
        lemma_rows_split(t1.rows@, t2.rows@);
        lemma_rows_html_eq(t1.rows@, t2.rows@, t1.alignments@);
    }

/// Two blocks with the same events render the same.
pub(crate) proof fn lemma_block_det(b1: Block, b2: Block, hl: Option<&dyn crate::highlight::SyntaxHighlighter>)
    requires
        block_events(b1) == block_events(b2),
        code_ok(b1),
        code_ok(b2),
    ensures
        same_render(b1, b2, hl),
    decreases block_events(b1).len(), 1int,
{
    assert(bkind(b1) == ekind(block_events(b1)[0]));
    assert(bkind(b2) == ekind(block_events(b2)[0]));
    let e0 = block_events(b1)[0];
    match b1 {
        Block::Paragraph(x) => {
            let y = b2->Paragraph_0;
            lemma_wrap_inj(e0, inlines_events(x@), EventV::End(TagEnd::Paragraph), e0, inlines_events(y@), EventV::End(TagEnd::Paragraph));
            lemma_inlines_det(x@, y@);
            lemma_inlines_split(x@, y@);
        },
        Block::Heading(h1) => {
            let h2 = b2->Heading_0;
            lemma_wrap_inj(e0, inlines_events(h1.content@), EventV::End(TagEnd::Heading), block_events(b2)[0], inlines_events(h2.content@), EventV::End(TagEnd::Heading));
            lemma_inlines_det(h1.content@, h2.content@);
        },
        Block::ThematicBreak(_) => {},
        Block::CodeBlock(_) => lemma_det_code(b1, b2, hl),
        Block::HtmlBlock(l1) => {
            let l2 = b2->HtmlBlock_0;
            lemma_wrap_inj(e0, crate::stream::html_line_events(l1@), EventV::End(TagEnd::HtmlBlock), e0, crate::stream::html_line_events(l2@), EventV::End(TagEnd::HtmlBlock));
            lemma_raw_lines_eq(l1@, l2@);
        },
        Block::BlockQuote(ch1) => {
            let ch2 = b2->BlockQuote_0;
            lemma_wrap_inj(e0, blocks_events(ch1@), EventV::End(TagEnd::BlockQuote), e0, blocks_events(ch2@), EventV::End(TagEnd::BlockQuote));
            lemma_blocks_det(ch1@, ch2@, hl);
        },
        Block::List(l1) => {
            let l2 = b2->List_0;
            lemma_wrap_inj(e0, crate::stream::items_events(l1.items@), EventV::End(TagEnd::List), block_events(b2)[0], crate::stream::items_events(l2.items@), EventV::End(TagEnd::List));
            lemma_items_det(l1.items@, l2.items@, l1.tight, hl);
        },
        Block::Table(_) => lemma_det_table(b1, b2, hl),
    }
}

/// Two block lists with the same events render the same, block by block.
pub(crate) proof fn lemma_blocks_det(bs1: Seq<Block>, bs2: Seq<Block>, hl: Option<&dyn crate::highlight::SyntaxHighlighter>)
    requires
        blocks_events(bs1) == blocks_events(bs2),
        code_ok_all(bs1),
        code_ok_all(bs2),
    ensures
        bs1.len() == bs2.len(),
        forall|k: int| 0 <= k < bs1.len() ==> same_render(#[trigger] bs1[k], bs2[k], hl),
        crate::ast::blocks_html_hl(bs1, hl) == crate::ast::blocks_html_hl(bs2, hl),
    decreases blocks_events(bs1).len(), 2int,
{
    lemma_blocks_split(bs1, bs2);
    lemma_block_pieces(bs1);
    assert forall|k: int| 0 <= k < bs1.len() implies same_render(#[trigger] bs1[k], bs2[k], hl) by {
        lemma_concat_piece_le(block_pieces(bs1), k);
        lemma_code_ok_all_at(bs1, k);
        lemma_code_ok_all_at(bs2, k);
        lemma_block_det(bs1[k], bs2[k], hl);
    }
    lemma_blocks_html_eq(bs1, bs2, hl);
}

/// Two items with the same events have the same task state and the same
/// block events.
#[verifier::spinoff_prover]
#[verifier::rlimit(40)]
proof fn lemma_item_parts(it1: ListItem, it2: ListItem)
    requires
        crate::stream::item_events(it1) == crate::stream::item_events(it2),
    ensures
        it1.task == it2.task,
        blocks_events(it1.blocks@) == blocks_events(it2.blocks@),
{
    let t1: Seq<EventV> = match it1.task { Some(c) => seq![EventV::TaskListMarker(c)], None => Seq::empty() };
    let t2: Seq<EventV> = match it2.task { Some(c) => seq![EventV::TaskListMarker(c)], None => Seq::empty() };
    let b1 = blocks_events(it1.blocks@);
    let b2 = blocks_events(it2.blocks@);
    assert(crate::stream::item_events(it1) =~= wrap(EventV::Start(TagV::Item), t1 + b1, EventV::End(TagEnd::Item)));
    assert(crate::stream::item_events(it2) =~= wrap(EventV::Start(TagV::Item), t2 + b2, EventV::End(TagEnd::Item)));
    lemma_wrap_inj(EventV::Start(TagV::Item), t1 + b1, EventV::End(TagEnd::Item), EventV::Start(TagV::Item), t2 + b2, EventV::End(TagEnd::Item));
    // A task marker is never the first event of the blocks.
    if it1.blocks@.len() > 0 {
        crate::stream_html::lemma_blocks_at(it1.blocks@, 0);
        assert(it1.blocks@.take(0) =~= Seq::<Block>::empty());
        assert(b1[0] == block_events(it1.blocks@[0])[0]);
    }
    if it2.blocks@.len() > 0 {
        crate::stream_html::lemma_blocks_at(it2.blocks@, 0);
        assert(it2.blocks@.take(0) =~= Seq::<Block>::empty());
        assert(b2[0] == block_events(it2.blocks@[0])[0]);
    }
    if t1.len() > 0 {
        assert((t1 + b1)[0] == t1[0]);
    }
    if t2.len() > 0 {
        assert((t2 + b2)[0] == t2[0]);
    }
    if b1.len() > 0 && t2.len() == 0 {
        assert((t2 + b2)[0] == b2[0]);
    }
    if b2.len() > 0 && t1.len() == 0 {
        assert((t1 + b1)[0] == b1[0]);
    }
    assert(it1.task == it2.task);
    assert(t1 == t2);
    assert(b1 =~= b2) by {
        assert((t1 + b1).len() == (t2 + b2).len());
        assert forall|k: int| 0 <= k < b1.len() implies #[trigger] b1[k] == b2[k] by {
            assert((t1 + b1)[t1.len() + k] == (t2 + b2)[t1.len() + k]);
        }
    }
}

/// Two list items with the same events render the same.
proof fn lemma_item_det(it1: ListItem, it2: ListItem, tight: bool, hl: Option<&dyn crate::highlight::SyntaxHighlighter>)
    requires
        crate::stream::item_events(it1) == crate::stream::item_events(it2),
        code_ok_all(it1.blocks@),
        code_ok_all(it2.blocks@),
    ensures
        crate::ast::item_html_hl(it1, tight, hl) == crate::ast::item_html_hl(it2, tight, hl),
    decreases crate::stream::item_events(it1).len(), 0int,
{
    lemma_item_parts(it1, it2);
    crate::stream_html::lemma_item_nn(it1);
    assert(blocks_events(it1.blocks@).len() < crate::stream::item_events(it1).len());
    lemma_blocks_det(it1.blocks@, it2.blocks@, hl);
    let cb = crate::ast::task_checkbox(it1.task);
    lemma_tight_from_eq("<li>"@, it1.blocks@, it2.blocks@, 0, true, cb, hl);
    lemma_loose_from_eq(it1.blocks@, it2.blocks@, 0, false, cb, hl);
    if it1.blocks@.len() == 1 {
        assert(same_render(it1.blocks@[0], it2.blocks@[0], hl));
    }
    assert(crate::ast::empty_item(it1) == crate::ast::empty_item(it2));
}

proof fn lemma_items_det(i1: Seq<ListItem>, i2: Seq<ListItem>, tight: bool, hl: Option<&dyn crate::highlight::SyntaxHighlighter>)
    requires
        crate::stream::items_events(i1) == crate::stream::items_events(i2),
        code_ok_items(i1),
        code_ok_items(i2),
    ensures
        crate::ast::items_html_hl(i1, tight, hl) == crate::ast::items_html_hl(i2, tight, hl),
    decreases crate::stream::items_events(i1).len(), 1int,
{
    lemma_items_split(i1, i2);
    lemma_item_pieces(i1);
    assert forall|k: int| 0 <= k < i1.len() implies crate::ast::item_html_hl(#[trigger] i1[k], tight, hl) == crate::ast::item_html_hl(i2[k], tight, hl) by {
        lemma_concat_piece_le(item_pieces(i1), k);
        lemma_code_ok_items_at(i1, k);
        lemma_code_ok_items_at(i2, k);
        lemma_item_det(i1[k], i2[k], tight, hl);
    }
    lemma_items_html_eq(i1, i2, tight, hl);
}

// ---------------------------------------------------------------------------
// The law
// ---------------------------------------------------------------------------

/// Documents with the same event stream render the same HTML: the events
/// determine the rendering, whatever the stream leaves out (emphasis
/// delimiters, link styles, heading and fence kinds, autolinks written as
/// links). Indented code must carry no language, since the events do not
/// tell it from fenced code.
pub proof fn law_events_determine_html(bs1: Seq<Block>, bs2: Seq<Block>)
    requires
        code_ok_all(bs1),
        code_ok_all(bs2),
        blocks_events(bs1) == blocks_events(bs2),
    ensures
        crate::ast::blocks_html(bs1) == crate::ast::blocks_html(bs2),
{
    lemma_blocks_det(bs1, bs2, None);
    crate::ast::lemma_blocks_hl_none(bs1);
    crate::ast::lemma_blocks_hl_none(bs2);
}

/// The events of a parsed document render as the document does: every
/// block list with the same events (indented code without a language, as
/// the event renderer's contract asks) has the parsed blocks' HTML, so
/// rendering `events_from_document(&parse(md, options))` gives
/// `render_html(&parse(md, options))`.
pub proof fn law_parsed_events_render_as_document(
    input: Seq<char>,
    gfm: bool,
    blocks: Seq<Block>,
    refs: crate::inline_parser::RV,
    bs: Seq<Block>,
)
    requires
        crate::ast::parses_to(input, gfm, blocks, refs),
        code_ok_all(bs),
        blocks_events(bs) == blocks_events(blocks),
    ensures
        code_ok_all(blocks),
        crate::ast::blocks_html(bs) == crate::ast::blocks_html(blocks),
{
    law_events_determine_html(bs, blocks);
}

} // verus!
