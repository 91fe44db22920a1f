#![verifier::loop_isolation(false)]

//! Generic walker over the public AST ([`crate::ast`]).
//!
//! The walker is decoupled from rendering: implement [`Visitor`] to collect
//! information (table of contents, link inventories, lint findings)
//! without producing output. Traversal is pre-order over references: the
//! visitor borrows the document, never owns it.

use vstd::prelude::*;
use crate::ast::{Block, Document, Inline, ListItem, TableCell};

verus! {

/// Visitor callbacks invoked once per node, pre-order (parent before
/// children). A visitor states its effect by `after_block` and
/// `after_inline`: what it becomes on seeing a node. A visitor that
/// ignores a kind of node writes an empty callback and states itself
/// unchanged.
pub trait Visitor: Sized {
    /// The visitor after it has seen `block` (by default, itself).
    open spec fn after_block(self, block: Block) -> Self {
        self
    }

    /// The visitor after it has seen `inline` (by default, itself).
    open spec fn after_inline(self, inline: Inline) -> Self {
        self
    }

    /// Called for every [`Block`] in the document, parent before children.
    fn visit_block(&mut self, block: &Block)
        ensures
            *final(self) == old(self).after_block(*block),
    ;

    /// Called for every [`Inline`] in the document, parent before children.
    fn visit_inline(&mut self, inline: &Inline)
        ensures
            *final(self) == old(self).after_inline(*inline),
    ;
}

/// The visitor after a pre-order walk of `i`: the inline itself, then its
/// children.
pub open spec fn walk_inline_spec<V: Visitor>(v: V, i: Inline) -> V
    decreases i,
{
    let v1 = v.after_inline(i);
    match i {
        Inline::Emphasis { content, .. } => walk_inlines_spec(v1, content@),
        Inline::Strong { content, .. } => walk_inlines_spec(v1, content@),
        Inline::Strikethrough(content) => walk_inlines_spec(v1, content@),
        Inline::Link(link) => walk_inlines_spec(v1, link.text@),
        _ => v1,
    }
}

/// The visitor after walking the inlines in order.
pub open spec fn walk_inlines_spec<V: Visitor>(v: V, s: Seq<Inline>) -> V
    decreases s,
{
    if s.len() == 0 {
        v
    } else {
        walk_inline_spec(walk_inlines_spec(v, s.drop_last()), s.last())
    }
}

/// The visitor after walking the cells' inlines in order.
pub open spec fn walk_cells_spec<V: Visitor>(v: V, cells: Seq<TableCell>) -> V
    decreases cells.len(),
{
    if cells.len() == 0 {
        v
    } else {
        walk_inlines_spec(walk_cells_spec(v, cells.drop_last()), cells.last().content@)
    }
}

/// The visitor after walking the rows' cells in order.
pub open spec fn walk_rows_spec<V: Visitor>(v: V, rows: Seq<Vec<TableCell>>) -> V
    decreases rows.len(),
{
    if rows.len() == 0 {
        v
    } else {
        walk_cells_spec(walk_rows_spec(v, rows.drop_last()), rows.last()@)
    }
}

/// The visitor after a pre-order walk of `b`: the block itself, then its
/// child blocks or inlines (a table's header cells, then its rows).
pub open spec fn walk_block_spec<V: Visitor>(v: V, b: Block) -> V
    decreases b, 1nat,
{
    let v1 = v.after_block(b);
    match b {
        Block::Paragraph(inl) => walk_inlines_spec(v1, inl@),
        Block::Heading(h) => walk_inlines_spec(v1, h.content@),
        Block::BlockQuote(children) => walk_blocks_spec(v1, children@),
        Block::List(list) => walk_items_spec(v1, list.items@),
        Block::Table(t) => walk_rows_spec(walk_cells_spec(v1, t.header@), t.rows@),
        _ => v1,
    }
}

/// The visitor after walking the blocks in order.
pub open spec fn walk_blocks_spec<V: Visitor>(v: V, bs: Seq<Block>) -> V
    decreases bs, 0nat,
{
    if bs.len() == 0 {
        v
    } else {
        walk_block_spec(walk_blocks_spec(v, bs.drop_last()), bs.last())
    }
}

/// The visitor after walking the items' blocks in order.
pub open spec fn walk_items_spec<V: Visitor>(v: V, items: Seq<ListItem>) -> V
    decreases items, 0nat,
{
    if items.len() == 0 {
        v
    } else {
        walk_blocks_spec(walk_items_spec(v, items.drop_last()), items.last().blocks@)
    }
}

/// Walk a whole [`Document`]: every top-level block via [`walk_block`].
/// (Frontmatter and reference definitions carry no inline content; read
/// them off [`Document`] directly.)
pub fn walk_document<V: Visitor>(doc: &Document, visitor: &mut V)
    ensures
        *final(visitor) == walk_blocks_spec(*old(visitor), doc.blocks@),
{
    let ghost v0 = *visitor;
    let mut k: usize = 0;
    while k < doc.blocks.len()
        invariant
            k <= doc.blocks@.len(),
            *visitor == walk_blocks_spec(v0, doc.blocks@.take(k as int)),
        decreases doc.blocks@.len() - k,
    {
        walk_block(&doc.blocks[k], visitor);
        assert(doc.blocks@.take(k + 1).drop_last() =~= doc.blocks@.take(k as int));
        k += 1;
    }
    assert(doc.blocks@.take(doc.blocks@.len() as int) =~= doc.blocks@);
}

/// Walk one [`Block`]: calls [`Visitor::visit_block`], then recurses into
/// child blocks and inlines.
pub fn walk_block<V: Visitor>(block: &Block, visitor: &mut V)
    ensures
        *final(visitor) == walk_block_spec(*old(visitor), *block),
    decreases block,
{
    visitor.visit_block(block);
    let ghost v1 = *visitor;
    match block {
        Block::Paragraph(inlines) => walk_inlines(inlines, visitor),
        Block::Heading(heading) => walk_inlines(&heading.content, visitor),
        Block::ThematicBreak(_) => {},
        Block::CodeBlock(_) => {},
        Block::HtmlBlock(_) => {},
        Block::BlockQuote(children) => {
            let mut k: usize = 0;
            while k < children.len()
                invariant
                    k <= children@.len(),
                    *visitor == walk_blocks_spec(v1, children@.take(k as int)),
                decreases children@.len() - k,
            {
                proof {
                    crate::ast::lemma_quote_child(*block, k as int);
                }
                walk_block(&children[k], visitor);
                assert(children@.take(k + 1).drop_last() =~= children@.take(k as int));
                k += 1;
            }
            assert(children@.take(children@.len() as int) =~= children@);
        },
        Block::List(list) => {
            let mut q: usize = 0;
            while q < list.items.len()
                invariant
                    q <= list.items@.len(),
                    *visitor == walk_items_spec(v1, list.items@.take(q as int)),
                decreases list.items@.len() - q,
            {
                let item = &list.items[q];
                let ghost vq = *visitor;
                let mut k: usize = 0;
                while k < item.blocks.len()
                    invariant
                        k <= item.blocks@.len(),
                        *visitor == walk_blocks_spec(vq, item.blocks@.take(k as int)),
                    decreases item.blocks@.len() - k,
                {
                    proof {
                        crate::ast::lemma_item_child(*block, q as int, k as int);
                    }
                    walk_block(&item.blocks[k], visitor);
                    assert(item.blocks@.take(k + 1).drop_last() =~= item.blocks@.take(k as int));
                    k += 1;
                }
                assert(item.blocks@.take(item.blocks@.len() as int) =~= item.blocks@);
                assert(list.items@.take(q + 1).drop_last() =~= list.items@.take(q as int));
                q += 1;
            }
            assert(list.items@.take(list.items@.len() as int) =~= list.items@);
        },
        Block::Table(table) => {
            let mut k: usize = 0;
            while k < table.header.len()
                invariant
                    k <= table.header@.len(),
                    *visitor == walk_cells_spec(v1, table.header@.take(k as int)),
                decreases table.header@.len() - k,
            {
                walk_inlines(&table.header[k].content, visitor);
                assert(table.header@.take(k + 1).drop_last() =~= table.header@.take(k as int));
                k += 1;
            }
            assert(table.header@.take(table.header@.len() as int) =~= table.header@);
            let ghost vh = *visitor;
            let mut q: usize = 0;
            while q < table.rows.len()
                invariant
                    q <= table.rows@.len(),
                    *visitor == walk_rows_spec(vh, table.rows@.take(q as int)),
                decreases table.rows@.len() - q,
            {
                let row = &table.rows[q];
                let ghost vq = *visitor;
                let mut k: usize = 0;
                while k < row.len()
                    invariant
                        k <= row@.len(),
                        *visitor == walk_cells_spec(vq, row@.take(k as int)),
                    decreases row@.len() - k,
                {
                    walk_inlines(&row[k].content, visitor);
                    assert(row@.take(k + 1).drop_last() =~= row@.take(k as int));
                    k += 1;
                }
                assert(row@.take(row@.len() as int) =~= row@);
                assert(table.rows@.take(q + 1).drop_last() =~= table.rows@.take(q as int));
                q += 1;
            }
            assert(table.rows@.take(table.rows@.len() as int) =~= table.rows@);
        },
    }
}

/// Walk one [`Inline`]: calls [`Visitor::visit_inline`], then recurses
/// into emphasis/link children.
pub fn walk_inline<V: Visitor>(inline: &Inline, visitor: &mut V)
    ensures
        *final(visitor) == walk_inline_spec(*old(visitor), *inline),
    decreases inline, 0usize,
{
    visitor.visit_inline(inline);
    match inline {
        Inline::Emphasis { content, .. } => walk_children(content, visitor),
        Inline::Strong { content, .. } => walk_children(content, visitor),
        Inline::Strikethrough(content) => walk_children(content, visitor),
        Inline::Link(link) => {
            proof {
                assert(decreases_to!(inline => link));
            }
            walk_children(&link.text, visitor)
        },
        _ => {},
    }
}

/// Walk the children of an inline.
fn walk_children<V: Visitor>(inlines: &Vec<Inline>, visitor: &mut V)
    ensures
        *final(visitor) == walk_inlines_spec(*old(visitor), inlines@),
    decreases inlines, 1usize,
{
    let ghost v0 = *visitor;
    let mut k: usize = 0;
    while k < inlines.len()
        invariant
            k <= inlines@.len(),
            *visitor == walk_inlines_spec(v0, inlines@.take(k as int)),
        decreases inlines@.len() - k,
    {
        proof {
            assert(decreases_to!(inlines => inlines@));
            assert(decreases_to!(inlines@ => inlines@[k as int]));
        }
        walk_inline(&inlines[k], visitor);
        assert(inlines@.take(k + 1).drop_last() =~= inlines@.take(k as int));
        k += 1;
    }
    assert(inlines@.take(inlines@.len() as int) =~= inlines@);
}

/// Walk a slice of [`Inline`] nodes via [`walk_inline`].
pub fn walk_inlines<V: Visitor>(inlines: &[Inline], visitor: &mut V)
    ensures
        *final(visitor) == walk_inlines_spec(*old(visitor), inlines@),
{
    let ghost v0 = *visitor;
    let mut k: usize = 0;
    while k < inlines.len()
        invariant
            k <= inlines@.len(),
            *visitor == walk_inlines_spec(v0, inlines@.take(k as int)),
        decreases inlines@.len() - k,
    {
        walk_inline(&inlines[k], visitor);
        assert(inlines@.take(k + 1).drop_last() =~= inlines@.take(k as int));
        k += 1;
    }
    assert(inlines@.take(inlines@.len() as int) =~= inlines@);
}

} // verus!
