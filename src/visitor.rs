//! Depth-first traversal of a document with override points.
//!
//! A visitor implements [`MutVisitor`]: for each category of node it is handed the node (or the
//! whole sequence) before its children and may rewrite it. It answers [`Step::Walk`] to have the
//! traversal go on into the children of the node as it now stands, or [`Step::Skip`] when it is
//! done with the node (an implementation may call the `walk_*` function itself, to work after
//! the children). A hook that changes nothing and answers `Walk` is the default behaviour; a
//! visitor states what each of its hooks does in the matching `visit_*_spec` function, and the
//! `walk_*` functions give, exactly, the tree and visitor that the `walked_*` functions state.
use vstd::prelude::*;

use crate::model::{
    Attr, Block, Caption, Cell, Citation, Inline, Meta, MetaValue, Pandoc, Row, TableBody,
};
use crate::view::{
    attr_view, block_lists_view, block_view, blocks_view, cells_view, citations_view,
    definitions_view, inline_lists_view, inline_view, inlines_view, meta_value_view,
    meta_values_view, meta_view, pandoc_view, rows_view, bodies_view, caption_view, body_view,
    cell_view, citation_view, row_view, AttrView,
    BlockView, CaptionView, CellView, CitationView, InlineView, MetaValueView, MetaView,
    PandocView, RowView, TableBodyView, Text,
};

verus! {

broadcast use vstd::std_specs::vec::axiom_vec_decreases_to_view;

/// What the traversal does after a visitor was handed a node.
#[derive(Debug, Clone, Copy, PartialEq, Eq, Structural)]
pub enum Step {
    /// Go on into the children of the node.
    Walk,
    /// Leave the node as the visitor left it.
    Skip,
}

/// `after` is `before` itself, or strictly smaller in Verus's structural order (a part of it, or a
/// sequence that keeps fewer of its elements). A visitor that rewrites a node and then asks for
/// its children to be walked keeps to this, so that every traversal ends.
pub open spec fn no_larger<T>(before: T, after: T) -> bool {
    after == before || decreases_to!(before => after)
}

/// `after` is a block of the same kind as `before`, with the same fields where those hold no
/// nodes: code and raw content, list numbering, header level, column specifications.
pub open spec fn same_block_outline(before: Block, after: Block) -> bool {
    match (before, after) {
        (Block::Plain(_), Block::Plain(_)) => true,
        (Block::Para(_), Block::Para(_)) => true,
        (Block::LineBlock(_), Block::LineBlock(_)) => true,
        (Block::CodeBlock(_, s), Block::CodeBlock(_, t)) => s == t,
        (Block::RawBlock(f, s), Block::RawBlock(g, t)) => f == g && s == t,
        (Block::BlockQuote(_), Block::BlockQuote(_)) => true,
        (Block::OrderedList(l, _), Block::OrderedList(m, _)) => l == m,
        (Block::BulletList(_), Block::BulletList(_)) => true,
        (Block::DefinitionList(_), Block::DefinitionList(_)) => true,
        (Block::Figure(..), Block::Figure(..)) => true,
        (Block::Header(l, _, _), Block::Header(m, _, _)) => l == m,
        (Block::HorizontalRule, Block::HorizontalRule) => true,
        (Block::Table(_, _, c, _, _, _), Block::Table(_, _, d, _, _, _)) => c == d,
        (Block::Div(..), Block::Div(..)) => true,
        (Block::Null, Block::Null) => true,
        _ => false,
    }
}

/// `after` is an inline of the same kind as `before`, with the same fields where those hold no
/// nodes: text, quote and math types, code, raw content, link and image targets.
pub open spec fn same_inline_outline(before: Inline, after: Inline) -> bool {
    match (before, after) {
        (Inline::Str(s), Inline::Str(t)) => s == t,
        (Inline::Emph(_), Inline::Emph(_)) => true,
        (Inline::Underline(_), Inline::Underline(_)) => true,
        (Inline::Strong(_), Inline::Strong(_)) => true,
        (Inline::Strikeout(_), Inline::Strikeout(_)) => true,
        (Inline::Superscript(_), Inline::Superscript(_)) => true,
        (Inline::Subscript(_), Inline::Subscript(_)) => true,
        (Inline::SmallCaps(_), Inline::SmallCaps(_)) => true,
        (Inline::Quoted(q, _), Inline::Quoted(r, _)) => q == r,
        (Inline::Cite(..), Inline::Cite(..)) => true,
        (Inline::Code(_, s), Inline::Code(_, t)) => s == t,
        (Inline::Space, Inline::Space) => true,
        (Inline::SoftBreak, Inline::SoftBreak) => true,
        (Inline::LineBreak, Inline::LineBreak) => true,
        (Inline::Math(m, s), Inline::Math(n, t)) => m == n && s == t,
        (Inline::RawInline(f, s), Inline::RawInline(g, t)) => f == g && s == t,
        (Inline::Link(_, _, x), Inline::Link(_, _, y)) => x == y,
        (Inline::Image(_, _, x), Inline::Image(_, _, y)) => x == y,
        (Inline::Note(_), Inline::Note(_)) => true,
        (Inline::Span(..), Inline::Span(..)) => true,
        _ => false,
    }
}

/// `after` is a metadata value of the same kind as `before`, with the same flag or string where
/// it holds one.
pub open spec fn same_meta_outline(before: MetaValue, after: MetaValue) -> bool {
    match (before, after) {
        (MetaValue::MetaMap(_), MetaValue::MetaMap(_)) => true,
        (MetaValue::MetaList(_), MetaValue::MetaList(_)) => true,
        (MetaValue::MetaBool(a), MetaValue::MetaBool(b)) => a == b,
        (MetaValue::MetaString(a), MetaValue::MetaString(b)) => a == b,
        (MetaValue::MetaInlines(_), MetaValue::MetaInlines(_)) => true,
        (MetaValue::MetaBlocks(_), MetaValue::MetaBlocks(_)) => true,
        _ => false,
    }
}

pub trait MutVisitor: Sized {
    /// Holds of a visitor that leaves every node it is handed as it found it.
    open spec fn preserves(&self) -> bool {
        false
    }

    /// What `visit_block` does: the visitor and the block after it, and the step it asks for.
    open spec fn visit_block_spec(&self, b: BlockView) -> (Self, BlockView, Step) {
        (*self, b, Step::Walk)
    }

    /// What `visit_attr` does: the visitor and the attributes after it.
    open spec fn visit_attr_spec(&self, a: AttrView) -> (Self, AttrView) {
        (*self, a)
    }

    open spec fn visit_inline_spec(&self, i: InlineView) -> (Self, InlineView, Step) {
        (*self, i, Step::Walk)
    }

    /// What `visit_meta` does with the value under `key`.
    open spec fn visit_meta_spec(&self, key: Text, m: MetaValueView) -> (Self, MetaValueView, Step) {
        (*self, m, Step::Walk)
    }

    open spec fn visit_vec_block_spec(&self, s: Seq<BlockView>) -> (Self, Seq<BlockView>, Step) {
        (*self, s, Step::Walk)
    }

    open spec fn visit_vec_inline_spec(&self, s: Seq<InlineView>) -> (Self, Seq<InlineView>, Step) {
        (*self, s, Step::Walk)
    }

    open spec fn visit_rows_spec(&self, s: Seq<RowView>) -> (Self, Seq<RowView>, Step) {
        (*self, s, Step::Walk)
    }

    /// Handed a block before its children. `Step::Walk` (what a visitor that changes nothing
    /// answers) has the traversal go on into the children.
    fn visit_block(&mut self, block: &mut Block) -> (r: Step)
        ensures
            (*final(self), block_view(*final(block)), r) == old(self).visit_block_spec(
                block_view(*old(block)),
            ),
            old(self).preserves() ==> final(self).preserves() && block_view(*final(block))
                == block_view(*old(block)),
            r == Step::Walk ==> no_larger(block_view(*old(block)), block_view(*final(block))),
            r == Step::Walk ==> no_larger(*old(block), *final(block)),
    ;

    fn visit_attr(&mut self, attr: &mut Attr)
        ensures
            (*final(self), attr_view(*final(attr))) == old(self).visit_attr_spec(attr_view(*old(attr))),
            old(self).preserves() ==> final(self).preserves() && attr_view(*final(attr))
                == attr_view(*old(attr)),
    ;

    fn visit_inline(&mut self, inline: &mut Inline) -> (r: Step)
        ensures
            (*final(self), inline_view(*final(inline)), r) == old(self).visit_inline_spec(
                inline_view(*old(inline)),
            ),
            old(self).preserves() ==> final(self).preserves() && inline_view(*final(inline))
                == inline_view(*old(inline)),
            r == Step::Walk ==> no_larger(inline_view(*old(inline)), inline_view(*final(inline))),
            r == Step::Walk ==> no_larger(*old(inline), *final(inline)),
    ;

    fn visit_meta(&mut self, key: &str, meta: &mut MetaValue) -> (r: Step)
        ensures
            (*final(self), meta_value_view(*final(meta)), r) == old(self).visit_meta_spec(
                key@,
                meta_value_view(*old(meta)),
            ),
            old(self).preserves() ==> final(self).preserves() && meta_value_view(*final(meta))
                == meta_value_view(*old(meta)),
            r == Step::Walk ==> no_larger(meta_value_view(*old(meta)), meta_value_view(*final(meta))),
            r == Step::Walk ==> no_larger(*old(meta), *final(meta)),
    ;

    fn visit_vec_block(&mut self, vec_block: &mut Vec<Block>) -> (r: Step)
        ensures
            (*final(self), blocks_view(*final(vec_block)), r) == old(self).visit_vec_block_spec(
                blocks_view(*old(vec_block)),
            ),
            old(self).preserves() ==> final(self).preserves() && blocks_view(*final(vec_block))
                == blocks_view(*old(vec_block)),
            r == Step::Walk ==> no_larger(blocks_view(*old(vec_block)), blocks_view(*final(vec_block))),
            r == Step::Walk ==> no_larger(old(vec_block)@, final(vec_block)@),
    ;

    fn visit_vec_inline(&mut self, vec_inline: &mut Vec<Inline>) -> (r: Step)
        ensures
            (*final(self), inlines_view(*final(vec_inline)), r) == old(self).visit_vec_inline_spec(
                inlines_view(*old(vec_inline)),
            ),
            old(self).preserves() ==> final(self).preserves() && inlines_view(*final(vec_inline))
                == inlines_view(*old(vec_inline)),
            r == Step::Walk ==> no_larger(inlines_view(*old(vec_inline)), inlines_view(*final(vec_inline))),
            r == Step::Walk ==> no_larger(old(vec_inline)@, final(vec_inline)@),
    ;

    fn visit_rows(&mut self, rows: &mut Vec<Row>) -> (r: Step)
        ensures
            (*final(self), rows_view(*final(rows)), r) == old(self).visit_rows_spec(
                rows_view(*old(rows)),
            ),
            old(self).preserves() ==> final(self).preserves() && rows_view(*final(rows))
                == rows_view(*old(rows)),
            r == Step::Walk ==> no_larger(rows_view(*old(rows)), rows_view(*final(rows))),
            r == Step::Walk ==> no_larger(old(rows)@, final(rows)@),
    ;
}

/// A visitor that changes nothing: every node is walked, none is rewritten.
pub struct NoOp;

impl MutVisitor for NoOp {
    open spec fn preserves(&self) -> bool {
        true
    }

    fn visit_block(&mut self, block: &mut Block) -> (r: Step) {
        Step::Walk
    }

    fn visit_attr(&mut self, attr: &mut Attr) {
    }

    fn visit_inline(&mut self, inline: &mut Inline) -> (r: Step) {
        Step::Walk
    }

    fn visit_meta(&mut self, key: &str, meta: &mut MetaValue) -> (r: Step) {
        Step::Walk
    }

    fn visit_vec_block(&mut self, vec_block: &mut Vec<Block>) -> (r: Step) {
        Step::Walk
    }

    fn visit_vec_inline(&mut self, vec_inline: &mut Vec<Inline>) -> (r: Step) {
        Step::Walk
    }

    fn visit_rows(&mut self, rows: &mut Vec<Row>) -> (r: Step) {
        Step::Walk
    }
}

// ---------------------------------------------------------------- the traversal, stated

/// `r` with `p` before its nodes.
pub open spec fn after<V, T>(p: Seq<T>, r: (V, Seq<T>)) -> (V, Seq<T>) {
    (r.0, p + r.1)
}

proof fn lemma_after_push<V, T>(p: Seq<T>, x: T, r: (V, Seq<T>))
    ensures
        after(p, (r.0, seq![x] + r.1)) == after(p.push(x), r),
{
    assert(p + (seq![x] + r.1) =~= p.push(x) + r.1);
}

/// A block handed to the visitor, then, if it asks, its children walked.
pub open spec fn entered_block<V: MutVisitor>(v: V, b: BlockView) -> (V, BlockView)
    decreases b, 1int, 0int,
{
    let (v1, b1, step) = v.visit_block_spec(b);
    if step == Step::Walk && no_larger(b, b1) {
        walked_block(v1, b1)
    } else {
        (v1, b1)
    }
}

pub open spec fn entered_inline<V: MutVisitor>(v: V, i: InlineView) -> (V, InlineView)
    decreases i, 1int, 0int,
{
    let (v1, i1, step) = v.visit_inline_spec(i);
    if step == Step::Walk && no_larger(i, i1) {
        walked_inline(v1, i1)
    } else {
        (v1, i1)
    }
}

pub open spec fn entered_meta<V: MutVisitor>(v: V, key: Text, m: MetaValueView) -> (V, MetaValueView)
    decreases m, 1int, 0int,
{
    let (v1, m1, step) = v.visit_meta_spec(key, m);
    if step == Step::Walk && no_larger(m, m1) {
        walked_meta(v1, m1)
    } else {
        (v1, m1)
    }
}

pub open spec fn entered_blocks<V: MutVisitor>(v: V, s: Seq<BlockView>) -> (V, Seq<BlockView>)
    decreases s, 1int, 0int,
{
    let (v1, s1, step) = v.visit_vec_block_spec(s);
    if step == Step::Walk && no_larger(s, s1) {
        walked_blocks(v1, s1, 0)
    } else {
        (v1, s1)
    }
}

pub open spec fn entered_inlines<V: MutVisitor>(v: V, s: Seq<InlineView>) -> (V, Seq<InlineView>)
    decreases s, 1int, 0int,
{
    let (v1, s1, step) = v.visit_vec_inline_spec(s);
    if step == Step::Walk && no_larger(s, s1) {
        walked_inlines(v1, s1, 0)
    } else {
        (v1, s1)
    }
}

pub open spec fn entered_rows<V: MutVisitor>(v: V, s: Seq<RowView>) -> (V, Seq<RowView>)
    decreases s, 1int, 0int,
{
    let (v1, s1, step) = v.visit_rows_spec(s);
    if step == Step::Walk && no_larger(s, s1) {
        walked_rows(v1, s1, 0)
    } else {
        (v1, s1)
    }
}

/// The blocks of `s` from index `i` on, each handed to the visitor in turn.
pub open spec fn walked_blocks<V: MutVisitor>(v: V, s: Seq<BlockView>, i: int) -> (V, Seq<BlockView>)
    decreases s, 0int, s.len() - i,
{
    if 0 <= i < s.len() {
        let (v1, x) = entered_block(v, s[i]);
        let r = walked_blocks(v1, s, i + 1);
        (r.0, seq![x] + r.1)
    } else {
        (v, Seq::empty())
    }
}

pub open spec fn walked_inlines<V: MutVisitor>(v: V, s: Seq<InlineView>, i: int) -> (V, Seq<InlineView>)
    decreases s, 0int, s.len() - i,
{
    if 0 <= i < s.len() {
        let (v1, x) = entered_inline(v, s[i]);
        let r = walked_inlines(v1, s, i + 1);
        (r.0, seq![x] + r.1)
    } else {
        (v, Seq::empty())
    }
}

pub open spec fn walked_inline_lists<V: MutVisitor>(v: V, s: Seq<Seq<InlineView>>, i: int) -> (V, Seq<Seq<InlineView>>)
    decreases s, 0int, s.len() - i,
{
    if 0 <= i < s.len() {
        let (v1, x) = entered_inlines(v, s[i]);
        let r = walked_inline_lists(v1, s, i + 1);
        (r.0, seq![x] + r.1)
    } else {
        (v, Seq::empty())
    }
}

pub open spec fn walked_block_lists<V: MutVisitor>(v: V, s: Seq<Seq<BlockView>>, i: int) -> (V, Seq<Seq<BlockView>>)
    decreases s, 0int, s.len() - i,
{
    if 0 <= i < s.len() {
        let (v1, x) = entered_blocks(v, s[i]);
        let r = walked_block_lists(v1, s, i + 1);
        (r.0, seq![x] + r.1)
    } else {
        (v, Seq::empty())
    }
}

pub open spec fn walked_definitions<V: MutVisitor>(
    v: V,
    s: Seq<(Seq<InlineView>, Seq<Seq<BlockView>>)>,
    i: int,
) -> (V, Seq<(Seq<InlineView>, Seq<Seq<BlockView>>)>)
    decreases s, 0int, s.len() - i,
{
    if 0 <= i < s.len() {
        let (v1, t) = entered_inlines(v, s[i].0);
        let (v2, d) = walked_block_lists(v1, s[i].1, 0);
        let r = walked_definitions(v2, s, i + 1);
        (r.0, seq![(t, d)] + r.1)
    } else {
        (v, Seq::empty())
    }
}

pub open spec fn walked_citations<V: MutVisitor>(v: V, s: Seq<CitationView>, i: int) -> (V, Seq<CitationView>)
    decreases s, 0int, s.len() - i,
{
    if 0 <= i < s.len() {
        let c = s[i];
        let (v1, p) = entered_inlines(v, c.prefix);
        let (v2, q) = entered_inlines(v1, c.suffix);
        let r = walked_citations(v2, s, i + 1);
        (
            r.0,
            seq![
                CitationView {
                    id: c.id,
                    prefix: p,
                    suffix: q,
                    mode: c.mode,
                    note_num: c.note_num,
                    hash: c.hash,
                },
            ] + r.1,
        )
    } else {
        (v, Seq::empty())
    }
}

pub open spec fn walked_rows<V: MutVisitor>(v: V, s: Seq<RowView>, i: int) -> (V, Seq<RowView>)
    decreases s, 0int, s.len() - i,
{
    if 0 <= i < s.len() {
        let (v1, a) = v.visit_attr_spec(s[i].0);
        let (v2, cells) = walked_cells(v1, s[i].1, 0);
        let r = walked_rows(v2, s, i + 1);
        (r.0, seq![(a, cells)] + r.1)
    } else {
        (v, Seq::empty())
    }
}

pub open spec fn walked_cells<V: MutVisitor>(v: V, s: Seq<CellView>, i: int) -> (V, Seq<CellView>)
    decreases s, 0int, s.len() - i,
{
    if 0 <= i < s.len() {
        let c = s[i];
        let (v1, a) = v.visit_attr_spec(c.0);
        let (v2, b) = entered_blocks(v1, c.4);
        let r = walked_cells(v2, s, i + 1);
        (r.0, seq![(a, c.1, c.2, c.3, b)] + r.1)
    } else {
        (v, Seq::empty())
    }
}

pub open spec fn walked_bodies<V: MutVisitor>(v: V, s: Seq<TableBodyView>, i: int) -> (V, Seq<TableBodyView>)
    decreases s, 0int, s.len() - i,
{
    if 0 <= i < s.len() {
        let b = s[i];
        let (v1, a) = v.visit_attr_spec(b.0);
        let (v2, h) = entered_rows(v1, b.2);
        let (v3, rows) = entered_rows(v2, b.3);
        let r = walked_bodies(v3, s, i + 1);
        (r.0, seq![(a, b.1, h, rows)] + r.1)
    } else {
        (v, Seq::empty())
    }
}

pub open spec fn walked_meta_entries<V: MutVisitor>(v: V, s: MetaView, i: int) -> (V, MetaView)
    decreases s, 0int, s.len() - i,
{
    if 0 <= i < s.len() {
        let (v1, x) = entered_meta(v, s[i].0, s[i].1);
        let r = walked_meta_entries(v1, s, i + 1);
        (r.0, seq![(s[i].0, x)] + r.1)
    } else {
        (v, Seq::empty())
    }
}

pub open spec fn walked_meta_list<V: MutVisitor>(v: V, s: Seq<MetaValueView>, i: int) -> (V, Seq<MetaValueView>)
    decreases s, 0int, s.len() - i,
{
    if 0 <= i < s.len() {
        let (v1, x) = walked_meta(v, s[i]);
        let r = walked_meta_list(v1, s, i + 1);
        (r.0, seq![x] + r.1)
    } else {
        (v, Seq::empty())
    }
}

pub open spec fn walked_caption<V: MutVisitor>(v: V, c: CaptionView) -> (V, CaptionView)
    decreases c, 0int, 0int,
{
    let (v1, short) = match c.0 {
        Some(s) => {
            let (v1, s1) = entered_inlines(v, s);
            (v1, Some(s1))
        },
        None => (v, None),
    };
    let (v2, b) = entered_blocks(v1, c.1);
    (v2, (short, b))
}

/// The children of a metadata value, walked: a map's entries through `visit_meta`, a list's
/// items walked in turn, the inlines or blocks it holds.
pub open spec fn walked_meta<V: MutVisitor>(v: V, m: MetaValueView) -> (V, MetaValueView)
    decreases m, 0int, 0int,
{
    match m {
        MetaValueView::MetaMap(c) => {
            let (v1, c1) = walked_meta_entries(v, c, 0);
            (v1, MetaValueView::MetaMap(c1))
        },
        MetaValueView::MetaList(c) => {
            let (v1, c1) = walked_meta_list(v, c, 0);
            (v1, MetaValueView::MetaList(c1))
        },
        MetaValueView::MetaInlines(c) => {
            let (v1, c1) = entered_inlines(v, c);
            (v1, MetaValueView::MetaInlines(c1))
        },
        MetaValueView::MetaBlocks(c) => {
            let (v1, c1) = entered_blocks(v, c);
            (v1, MetaValueView::MetaBlocks(c1))
        },
        _ => (v, m),
    }
}

/// The children of an inline, walked in the order of its fields.
pub open spec fn walked_inline<V: MutVisitor>(v: V, i: InlineView) -> (V, InlineView)
    decreases i, 0int, 0int,
{
    match i {
        InlineView::Emph(c) => {
            let (v1, c1) = entered_inlines(v, c);
            (v1, InlineView::Emph(c1))
        },
        InlineView::Underline(c) => {
            let (v1, c1) = entered_inlines(v, c);
            (v1, InlineView::Underline(c1))
        },
        InlineView::Strong(c) => {
            let (v1, c1) = entered_inlines(v, c);
            (v1, InlineView::Strong(c1))
        },
        InlineView::Strikeout(c) => {
            let (v1, c1) = entered_inlines(v, c);
            (v1, InlineView::Strikeout(c1))
        },
        InlineView::Superscript(c) => {
            let (v1, c1) = entered_inlines(v, c);
            (v1, InlineView::Superscript(c1))
        },
        InlineView::Subscript(c) => {
            let (v1, c1) = entered_inlines(v, c);
            (v1, InlineView::Subscript(c1))
        },
        InlineView::SmallCaps(c) => {
            let (v1, c1) = entered_inlines(v, c);
            (v1, InlineView::SmallCaps(c1))
        },
        InlineView::Quoted(q, c) => {
            let (v1, c1) = entered_inlines(v, c);
            (v1, InlineView::Quoted(q, c1))
        },
        InlineView::Cite(cs, c) => {
            let (v1, cs1) = walked_citations(v, cs, 0);
            let (v2, c1) = entered_inlines(v1, c);
            (v2, InlineView::Cite(cs1, c1))
        },
        InlineView::Code(a, t) => {
            let (v1, a1) = v.visit_attr_spec(a);
            (v1, InlineView::Code(a1, t))
        },
        InlineView::Link(a, c, t) => {
            let (v1, a1) = v.visit_attr_spec(a);
            let (v2, c1) = entered_inlines(v1, c);
            (v2, InlineView::Link(a1, c1, t))
        },
        InlineView::Image(a, c, t) => {
            let (v1, a1) = v.visit_attr_spec(a);
            let (v2, c1) = entered_inlines(v1, c);
            (v2, InlineView::Image(a1, c1, t))
        },
        InlineView::Note(c) => {
            let (v1, c1) = entered_blocks(v, c);
            (v1, InlineView::Note(c1))
        },
        InlineView::Span(a, c) => {
            let (v1, a1) = v.visit_attr_spec(a);
            let (v2, c1) = entered_inlines(v1, c);
            (v2, InlineView::Span(a1, c1))
        },
        _ => (v, i),
    }
}

/// The children of a block, walked in the order of its fields. A table goes attributes,
/// caption, head (attributes, rows), each body (attributes, header rows, rows), foot.
pub open spec fn walked_block<V: MutVisitor>(v: V, b: BlockView) -> (V, BlockView)
    decreases b, 0int, 0int,
{
    match b {
        BlockView::Plain(c) => {
            let (v1, c1) = entered_inlines(v, c);
            (v1, BlockView::Plain(c1))
        },
        BlockView::Para(c) => {
            let (v1, c1) = entered_inlines(v, c);
            (v1, BlockView::Para(c1))
        },
        BlockView::LineBlock(c) => {
            let (v1, c1) = walked_inline_lists(v, c, 0);
            (v1, BlockView::LineBlock(c1))
        },
        BlockView::CodeBlock(a, t) => {
            let (v1, a1) = v.visit_attr_spec(a);
            (v1, BlockView::CodeBlock(a1, t))
        },
        BlockView::BlockQuote(c) => {
            let (v1, c1) = entered_blocks(v, c);
            (v1, BlockView::BlockQuote(c1))
        },
        BlockView::OrderedList(l, c) => {
            let (v1, c1) = walked_block_lists(v, c, 0);
            (v1, BlockView::OrderedList(l, c1))
        },
        BlockView::BulletList(c) => {
            let (v1, c1) = walked_block_lists(v, c, 0);
            (v1, BlockView::BulletList(c1))
        },
        BlockView::DefinitionList(c) => {
            let (v1, c1) = walked_definitions(v, c, 0);
            (v1, BlockView::DefinitionList(c1))
        },
        BlockView::Figure(a, cap, c) => {
            let (v1, a1) = v.visit_attr_spec(a);
            let (v2, cap1) = walked_caption(v1, cap);
            let (v3, c1) = entered_blocks(v2, c);
            (v3, BlockView::Figure(a1, cap1, c1))
        },
        BlockView::Header(l, a, c) => {
            let (v1, a1) = v.visit_attr_spec(a);
            let (v2, c1) = entered_inlines(v1, c);
            (v2, BlockView::Header(l, a1, c1))
        },
        BlockView::Table(a, cap, cols, head, bodies, foot) => {
            let (v1, a1) = v.visit_attr_spec(a);
            let (v2, cap1) = walked_caption(v1, cap);
            let (v3, ha) = v2.visit_attr_spec(head.0);
            let (v4, hr) = entered_rows(v3, head.1);
            let (v5, bodies1) = walked_bodies(v4, bodies, 0);
            let (v6, fa) = v5.visit_attr_spec(foot.0);
            let (v7, fr) = entered_rows(v6, foot.1);
            (v7, BlockView::Table(a1, cap1, cols, (ha, hr), bodies1, (fa, fr)))
        },
        BlockView::Div(a, c) => {
            let (v1, a1) = v.visit_attr_spec(a);
            let (v2, c1) = entered_blocks(v1, c);
            (v2, BlockView::Div(a1, c1))
        },
        _ => (v, b),
    }
}

/// A document walked: the metadata entries, then the blocks.
pub open spec fn walked_pandoc<V: MutVisitor>(v: V, d: PandocView) -> (V, PandocView) {
    let (v1, m) = walked_meta_entries(v, d.meta, 0);
    let (v2, b) = entered_blocks(v1, d.blocks);
    (v2, PandocView { meta: m, blocks: b, version: d.version })
}

// ---------------------------------------------------------------- the traversal

fn enter_block<V: MutVisitor>(vis: &mut V, x: &mut Block)
    ensures
        (*final(vis), block_view(*final(x))) == entered_block(*old(vis), block_view(*old(x))),
        old(vis).preserves() ==> final(vis).preserves() && block_view(*final(x)) == block_view(*old(x)),
    decreases *old(x), 1int,
{
    if vis.visit_block(x) == Step::Walk {
        walk_block(vis, x);
    }
}

fn enter_inline<V: MutVisitor>(vis: &mut V, x: &mut Inline)
    ensures
        (*final(vis), inline_view(*final(x))) == entered_inline(*old(vis), inline_view(*old(x))),
        old(vis).preserves() ==> final(vis).preserves() && inline_view(*final(x)) == inline_view(*old(x)),
    decreases *old(x), 1int,
{
    if vis.visit_inline(x) == Step::Walk {
        walk_inline(vis, x);
    }
}

fn enter_meta<V: MutVisitor>(vis: &mut V, key: &str, x: &mut MetaValue)
    ensures
        (*final(vis), meta_value_view(*final(x))) == entered_meta(*old(vis), key@, meta_value_view(*old(x))),
        old(vis).preserves() ==> final(vis).preserves() && meta_value_view(*final(x)) == meta_value_view(*old(x)),
    decreases *old(x), 1int,
{
    if vis.visit_meta(key, x) == Step::Walk {
        walk_meta(vis, x);
    }
}

fn enter_vec_block<V: MutVisitor>(vis: &mut V, x: &mut Vec<Block>)
    ensures
        (*final(vis), blocks_view(*final(x))) == entered_blocks(*old(vis), blocks_view(*old(x))),
        old(vis).preserves() ==> final(vis).preserves() && blocks_view(*final(x)) == blocks_view(*old(x)),
    decreases old(x)@, 1int,
{
    if vis.visit_vec_block(x) == Step::Walk {
        walk_vec_block(vis, x);
    }
}

fn enter_vec_inline<V: MutVisitor>(vis: &mut V, x: &mut Vec<Inline>)
    ensures
        (*final(vis), inlines_view(*final(x))) == entered_inlines(*old(vis), inlines_view(*old(x))),
        old(vis).preserves() ==> final(vis).preserves() && inlines_view(*final(x)) == inlines_view(*old(x)),
    decreases old(x)@, 1int,
{
    if vis.visit_vec_inline(x) == Step::Walk {
        walk_vec_inline(vis, x);
    }
}

fn enter_rows<V: MutVisitor>(vis: &mut V, x: &mut Vec<Row>)
    ensures
        (*final(vis), rows_view(*final(x))) == entered_rows(*old(vis), rows_view(*old(x))),
        old(vis).preserves() ==> final(vis).preserves() && rows_view(*final(x)) == rows_view(*old(x)),
    decreases old(x)@, 1int,
{
    if vis.visit_rows(x) == Step::Walk {
        walk_rows(vis, x);
    }
}

/// Hands every block of the sequence, in order, to the visitor.
pub fn walk_vec_block<V: MutVisitor>(vis: &mut V, v: &mut Vec<Block>)
    ensures
        (*final(vis), blocks_view(*final(v))) == walked_blocks(*old(vis), blocks_view(*old(v)), 0),
        final(v)@.len() == old(v)@.len(),
        old(vis).preserves() ==> final(vis).preserves() && blocks_view(*final(v)) == blocks_view(*old(v)),
    decreases old(v)@, 0int,
{
    let ghost s0 = blocks_view(*v);
    let ghost vis0 = *vis;
    let n = v.len();
    let mut i: usize = 0;
    proof {
        assert(blocks_view(*v).subrange(0, 0) + walked_blocks(vis0, s0, 0).1 =~= walked_blocks(vis0, s0, 0).1);
    }
    while i < n
        invariant
            i <= n,
            n == v@.len() == old(v)@.len(),
            s0 == blocks_view(*old(v)),
            vis0 == *old(vis),
            forall|j: int| i <= j < n ==> v@[j] == old(v)@[j],
            walked_blocks(vis0, s0, 0) == after(blocks_view(*v).subrange(0, i as int), walked_blocks(*vis, s0, i as int)),
            old(vis).preserves() ==> vis.preserves() && forall|j: int|
                0 <= j < i ==> block_view((#[trigger] v@[j])) == block_view(old(v)@[j]),
        decreases n - i,
    {
        let ghost pre = blocks_view(*v).subrange(0, i as int);
        proof {
            assert(s0[i as int] == block_view(v@[i as int]));
        }
        {
            let item = &mut v[i];
            enter_block(vis, item);
        }
        proof {
            let x = block_view(v@[i as int]);
            lemma_after_push(pre, x, walked_blocks(*vis, s0, i + 1));
            assert(blocks_view(*v).subrange(0, i + 1) =~= pre.push(x));
        }
        i += 1;
    }
    proof {
        assert(walked_blocks(*vis, s0, n as int).1 =~= Seq::empty());
        assert(blocks_view(*v).subrange(0, n as int) + Seq::empty() =~= blocks_view(*v));
        assert(walked_blocks(vis0, s0, 0).1 == blocks_view(*v).subrange(0, n as int) + walked_blocks(*vis, s0, n as int).1);
        assert(walked_blocks(vis0, s0, 0).1 == blocks_view(*v));
        if old(vis).preserves() {
            assert(blocks_view(*v) =~= blocks_view(*old(v)));
        }
    }
}

/// Hands every inline of the sequence, in order, to the visitor.
pub fn walk_vec_inline<V: MutVisitor>(vis: &mut V, v: &mut Vec<Inline>)
    ensures
        (*final(vis), inlines_view(*final(v))) == walked_inlines(*old(vis), inlines_view(*old(v)), 0),
        final(v)@.len() == old(v)@.len(),
        old(vis).preserves() ==> final(vis).preserves() && inlines_view(*final(v)) == inlines_view(*old(v)),
    decreases old(v)@, 0int,
{
    let ghost s0 = inlines_view(*v);
    let ghost vis0 = *vis;
    let n = v.len();
    let mut i: usize = 0;
    proof {
        assert(inlines_view(*v).subrange(0, 0) + walked_inlines(vis0, s0, 0).1 =~= walked_inlines(vis0, s0, 0).1);
    }
    while i < n
        invariant
            i <= n,
            n == v@.len() == old(v)@.len(),
            s0 == inlines_view(*old(v)),
            vis0 == *old(vis),
            forall|j: int| i <= j < n ==> v@[j] == old(v)@[j],
            walked_inlines(vis0, s0, 0) == after(inlines_view(*v).subrange(0, i as int), walked_inlines(*vis, s0, i as int)),
            old(vis).preserves() ==> vis.preserves() && forall|j: int|
                0 <= j < i ==> inline_view((#[trigger] v@[j])) == inline_view(old(v)@[j]),
        decreases n - i,
    {
        let ghost pre = inlines_view(*v).subrange(0, i as int);
        proof {
            assert(s0[i as int] == inline_view(v@[i as int]));
        }
        {
            let item = &mut v[i];
            enter_inline(vis, item);
        }
        proof {
            let x = inline_view(v@[i as int]);
            lemma_after_push(pre, x, walked_inlines(*vis, s0, i + 1));
            assert(inlines_view(*v).subrange(0, i + 1) =~= pre.push(x));
        }
        i += 1;
    }
    proof {
        assert(walked_inlines(*vis, s0, n as int).1 =~= Seq::empty());
        assert(inlines_view(*v).subrange(0, n as int) + Seq::empty() =~= inlines_view(*v));
        if old(vis).preserves() {
            assert(inlines_view(*v) =~= inlines_view(*old(v)));
        }
    }
}

/// Hands each row's attributes to the visitor, then each cell's attributes and blocks.
pub fn walk_rows<V: MutVisitor>(vis: &mut V, v: &mut Vec<Row>)
    ensures
        (*final(vis), rows_view(*final(v))) == walked_rows(*old(vis), rows_view(*old(v)), 0),
        final(v)@.len() == old(v)@.len(),
        old(vis).preserves() ==> final(vis).preserves() && rows_view(*final(v)) == rows_view(*old(v)),
    decreases old(v)@, 0int,
{
    let ghost s0 = rows_view(*v);
    let ghost vis0 = *vis;
    let n = v.len();
    let mut i: usize = 0;
    proof {
        assert(rows_view(*v).subrange(0, 0) + walked_rows(vis0, s0, 0).1 =~= walked_rows(vis0, s0, 0).1);
    }
    while i < n
        invariant
            i <= n,
            n == v@.len() == old(v)@.len(),
            s0 == rows_view(*old(v)),
            vis0 == *old(vis),
            forall|j: int| i <= j < n ==> v@[j] == old(v)@[j],
            walked_rows(vis0, s0, 0) == after(rows_view(*v).subrange(0, i as int), walked_rows(*vis, s0, i as int)),
            old(vis).preserves() ==> vis.preserves() && forall|j: int|
                0 <= j < i ==> row_view((#[trigger] v@[j])) == row_view(old(v)@[j]),
        decreases n - i,
    {
        let ghost pre = rows_view(*v).subrange(0, i as int);
        proof {
            assert(s0[i as int] == row_view(v@[i as int]));
        }
        {
            let item = &mut v[i];
            vis.visit_attr(&mut item.0);
            walk_cells(vis, &mut item.1);
        }
        proof {
            let x = row_view(v@[i as int]);
            lemma_after_push(pre, x, walked_rows(*vis, s0, i + 1));
            assert(rows_view(*v).subrange(0, i + 1) =~= pre.push(x));
        }
        i += 1;
    }
    proof {
        assert(walked_rows(*vis, s0, n as int).1 =~= Seq::empty());
        assert(rows_view(*v).subrange(0, n as int) + Seq::empty() =~= rows_view(*v));
        if old(vis).preserves() {
            assert(rows_view(*v) =~= rows_view(*old(v)));
        }
    }
}

fn walk_cells<V: MutVisitor>(vis: &mut V, v: &mut Vec<Cell>)
    ensures
        (*final(vis), cells_view(*final(v))) == walked_cells(*old(vis), cells_view(*old(v)), 0),
        final(v)@.len() == old(v)@.len(),
        old(vis).preserves() ==> final(vis).preserves() && cells_view(*final(v)) == cells_view(*old(v)),
    decreases old(v)@, 0int,
{
    let ghost s0 = cells_view(*v);
    let ghost vis0 = *vis;
    let n = v.len();
    let mut i: usize = 0;
    proof {
        assert(cells_view(*v).subrange(0, 0) + walked_cells(vis0, s0, 0).1 =~= walked_cells(vis0, s0, 0).1);
    }
    while i < n
        invariant
            i <= n,
            n == v@.len() == old(v)@.len(),
            s0 == cells_view(*old(v)),
            vis0 == *old(vis),
            forall|j: int| i <= j < n ==> v@[j] == old(v)@[j],
            walked_cells(vis0, s0, 0) == after(cells_view(*v).subrange(0, i as int), walked_cells(*vis, s0, i as int)),
            old(vis).preserves() ==> vis.preserves() && forall|j: int|
                0 <= j < i ==> cell_view((#[trigger] v@[j])) == cell_view(old(v)@[j]),
        decreases n - i,
    {
        let ghost pre = cells_view(*v).subrange(0, i as int);
        proof {
            assert(s0[i as int] == cell_view(v@[i as int]));
        }
        {
            let item = &mut v[i];
            vis.visit_attr(&mut item.0);
            enter_vec_block(vis, &mut item.4);
        }
        proof {
            let x = cell_view(v@[i as int]);
            lemma_after_push(pre, x, walked_cells(*vis, s0, i + 1));
            assert(cells_view(*v).subrange(0, i + 1) =~= pre.push(x));
        }
        i += 1;
    }
    proof {
        assert(walked_cells(*vis, s0, n as int).1 =~= Seq::empty());
        assert(cells_view(*v).subrange(0, n as int) + Seq::empty() =~= cells_view(*v));
        if old(vis).preserves() {
            assert(cells_view(*v) =~= cells_view(*old(v)));
        }
    }
}

fn walk_bodies<V: MutVisitor>(vis: &mut V, v: &mut Vec<TableBody>)
    ensures
        (*final(vis), bodies_view(*final(v))) == walked_bodies(*old(vis), bodies_view(*old(v)), 0),
        final(v)@.len() == old(v)@.len(),
        old(vis).preserves() ==> final(vis).preserves() && bodies_view(*final(v)) == bodies_view(*old(v)),
    decreases old(v)@, 0int,
{
    let ghost s0 = bodies_view(*v);
    let ghost vis0 = *vis;
    let n = v.len();
    let mut i: usize = 0;
    proof {
        assert(bodies_view(*v).subrange(0, 0) + walked_bodies(vis0, s0, 0).1 =~= walked_bodies(vis0, s0, 0).1);
    }
    while i < n
        invariant
            i <= n,
            n == v@.len() == old(v)@.len(),
            s0 == bodies_view(*old(v)),
            vis0 == *old(vis),
            forall|j: int| i <= j < n ==> v@[j] == old(v)@[j],
            walked_bodies(vis0, s0, 0) == after(bodies_view(*v).subrange(0, i as int), walked_bodies(*vis, s0, i as int)),
            old(vis).preserves() ==> vis.preserves() && forall|j: int|
                0 <= j < i ==> body_view((#[trigger] v@[j])) == body_view(old(v)@[j]),
        decreases n - i,
    {
        let ghost pre = bodies_view(*v).subrange(0, i as int);
        proof {
            assert(s0[i as int] == body_view(v@[i as int]));
        }
        {
            let item = &mut v[i];
            vis.visit_attr(&mut item.0);
            enter_rows(vis, &mut item.2);
            enter_rows(vis, &mut item.3);
        }
        proof {
            let x = body_view(v@[i as int]);
            lemma_after_push(pre, x, walked_bodies(*vis, s0, i + 1));
            assert(bodies_view(*v).subrange(0, i + 1) =~= pre.push(x));
        }
        i += 1;
    }
    proof {
        assert(walked_bodies(*vis, s0, n as int).1 =~= Seq::empty());
        assert(bodies_view(*v).subrange(0, n as int) + Seq::empty() =~= bodies_view(*v));
        if old(vis).preserves() {
            assert(bodies_view(*v) =~= bodies_view(*old(v)));
        }
    }
}

fn walk_citations<V: MutVisitor>(vis: &mut V, v: &mut Vec<Citation>)
    ensures
        (*final(vis), citations_view(*final(v))) == walked_citations(*old(vis), citations_view(*old(v)), 0),
        final(v)@.len() == old(v)@.len(),
        old(vis).preserves() ==> final(vis).preserves() && citations_view(*final(v)) == citations_view(*old(v)),
    decreases old(v)@, 0int,
{
    let ghost s0 = citations_view(*v);
    let ghost vis0 = *vis;
    let n = v.len();
    let mut i: usize = 0;
    proof {
        assert(citations_view(*v).subrange(0, 0) + walked_citations(vis0, s0, 0).1 =~= walked_citations(vis0, s0, 0).1);
    }
    while i < n
        invariant
            i <= n,
            n == v@.len() == old(v)@.len(),
            s0 == citations_view(*old(v)),
            vis0 == *old(vis),
            forall|j: int| i <= j < n ==> v@[j] == old(v)@[j],
            walked_citations(vis0, s0, 0) == after(citations_view(*v).subrange(0, i as int), walked_citations(*vis, s0, i as int)),
            old(vis).preserves() ==> vis.preserves() && forall|j: int|
                0 <= j < i ==> citation_view((#[trigger] v@[j])) == citation_view(old(v)@[j]),
        decreases n - i,
    {
        let ghost pre = citations_view(*v).subrange(0, i as int);
        proof {
            assert(s0[i as int] == citation_view(v@[i as int]));
        }
        {
            let item = &mut v[i];
            enter_vec_inline(vis, &mut item.citationPrefix);
            enter_vec_inline(vis, &mut item.citationSuffix);
        }
        proof {
            let x = citation_view(v@[i as int]);
            lemma_after_push(pre, x, walked_citations(*vis, s0, i + 1));
            assert(citations_view(*v).subrange(0, i + 1) =~= pre.push(x));
        }
        i += 1;
    }
    proof {
        assert(walked_citations(*vis, s0, n as int).1 =~= Seq::empty());
        assert(citations_view(*v).subrange(0, n as int) + Seq::empty() =~= citations_view(*v));
        if old(vis).preserves() {
            assert(citations_view(*v) =~= citations_view(*old(v)));
        }
    }
}

fn walk_inline_lists<V: MutVisitor>(vis: &mut V, v: &mut Vec<Vec<Inline>>)
    ensures
        (*final(vis), inline_lists_view(*final(v))) == walked_inline_lists(*old(vis), inline_lists_view(*old(v)), 0),
        final(v)@.len() == old(v)@.len(),
        old(vis).preserves() ==> final(vis).preserves() && inline_lists_view(*final(v)) == inline_lists_view(*old(v)),
    decreases old(v)@, 0int,
{
    let ghost s0 = inline_lists_view(*v);
    let ghost vis0 = *vis;
    let n = v.len();
    let mut i: usize = 0;
    proof {
        assert(inline_lists_view(*v).subrange(0, 0) + walked_inline_lists(vis0, s0, 0).1 =~= walked_inline_lists(vis0, s0, 0).1);
    }
    while i < n
        invariant
            i <= n,
            n == v@.len() == old(v)@.len(),
            s0 == inline_lists_view(*old(v)),
            vis0 == *old(vis),
            forall|j: int| i <= j < n ==> v@[j] == old(v)@[j],
            walked_inline_lists(vis0, s0, 0) == after(inline_lists_view(*v).subrange(0, i as int), walked_inline_lists(*vis, s0, i as int)),
            old(vis).preserves() ==> vis.preserves() && forall|j: int|
                0 <= j < i ==> inlines_view((#[trigger] v@[j])) == inlines_view(old(v)@[j]),
        decreases n - i,
    {
        let ghost pre = inline_lists_view(*v).subrange(0, i as int);
        proof {
            assert(s0[i as int] == inlines_view(v@[i as int]));
        }
        {
            let item = &mut v[i];
            enter_vec_inline(vis, item);
        }
        proof {
            let x = inlines_view(v@[i as int]);
            lemma_after_push(pre, x, walked_inline_lists(*vis, s0, i + 1));
            assert(inline_lists_view(*v).subrange(0, i + 1) =~= pre.push(x));
        }
        i += 1;
    }
    proof {
        assert(walked_inline_lists(*vis, s0, n as int).1 =~= Seq::empty());
        assert(inline_lists_view(*v).subrange(0, n as int) + Seq::empty() =~= inline_lists_view(*v));
        if old(vis).preserves() {
            assert(inline_lists_view(*v) =~= inline_lists_view(*old(v)));
        }
    }
}

fn walk_block_lists<V: MutVisitor>(vis: &mut V, v: &mut Vec<Vec<Block>>)
    ensures
        (*final(vis), block_lists_view(*final(v))) == walked_block_lists(*old(vis), block_lists_view(*old(v)), 0),
        final(v)@.len() == old(v)@.len(),
        old(vis).preserves() ==> final(vis).preserves() && block_lists_view(*final(v)) == block_lists_view(*old(v)),
    decreases old(v)@, 0int,
{
    let ghost s0 = block_lists_view(*v);
    let ghost vis0 = *vis;
    let n = v.len();
    let mut i: usize = 0;
    proof {
        assert(block_lists_view(*v).subrange(0, 0) + walked_block_lists(vis0, s0, 0).1 =~= walked_block_lists(vis0, s0, 0).1);
    }
    while i < n
        invariant
            i <= n,
            n == v@.len() == old(v)@.len(),
            s0 == block_lists_view(*old(v)),
            vis0 == *old(vis),
            forall|j: int| i <= j < n ==> v@[j] == old(v)@[j],
            walked_block_lists(vis0, s0, 0) == after(block_lists_view(*v).subrange(0, i as int), walked_block_lists(*vis, s0, i as int)),
            old(vis).preserves() ==> vis.preserves() && forall|j: int|
                0 <= j < i ==> blocks_view((#[trigger] v@[j])) == blocks_view(old(v)@[j]),
        decreases n - i,
    {
        let ghost pre = block_lists_view(*v).subrange(0, i as int);
        proof {
            assert(s0[i as int] == blocks_view(v@[i as int]));
        }
        {
            let item = &mut v[i];
            enter_vec_block(vis, item);
        }
        proof {
            let x = blocks_view(v@[i as int]);
            lemma_after_push(pre, x, walked_block_lists(*vis, s0, i + 1));
            assert(block_lists_view(*v).subrange(0, i + 1) =~= pre.push(x));
        }
        i += 1;
    }
    proof {
        assert(walked_block_lists(*vis, s0, n as int).1 =~= Seq::empty());
        assert(block_lists_view(*v).subrange(0, n as int) + Seq::empty() =~= block_lists_view(*v));
        if old(vis).preserves() {
            assert(block_lists_view(*v) =~= block_lists_view(*old(v)));
        }
    }
}

fn walk_definitions<V: MutVisitor>(vis: &mut V, v: &mut Vec<(Vec<Inline>, Vec<Vec<Block>>)>)
    ensures
        (*final(vis), definitions_view(*final(v))) == walked_definitions(*old(vis), definitions_view(*old(v)), 0),
        final(v)@.len() == old(v)@.len(),
        old(vis).preserves() ==> final(vis).preserves() && definitions_view(*final(v)) == definitions_view(*old(v)),
    decreases old(v)@, 0int,
{
    let ghost s0 = definitions_view(*v);
    let ghost vis0 = *vis;
    let n = v.len();
    let mut i: usize = 0;
    proof {
        assert(definitions_view(*v).subrange(0, 0) + walked_definitions(vis0, s0, 0).1 =~= walked_definitions(vis0, s0, 0).1);
    }
    while i < n
        invariant
            i <= n,
            n == v@.len() == old(v)@.len(),
            s0 == definitions_view(*old(v)),
            vis0 == *old(vis),
            forall|j: int| i <= j < n ==> v@[j] == old(v)@[j],
            walked_definitions(vis0, s0, 0) == after(definitions_view(*v).subrange(0, i as int), walked_definitions(*vis, s0, i as int)),
            old(vis).preserves() ==> vis.preserves() && forall|j: int|
                0 <= j < i ==> (inlines_view((#[trigger] v@[j]).0), block_lists_view((#[trigger] v@[j]).1)) == (inlines_view(old(v)@[j].0), block_lists_view(old(v)@[j].1)),
        decreases n - i,
    {
        let ghost pre = definitions_view(*v).subrange(0, i as int);
        proof {
            assert(s0[i as int] == (inlines_view(v@[i as int].0), block_lists_view(v@[i as int].1)));
        }
        {
            let item = &mut v[i];
            enter_vec_inline(vis, &mut item.0);
            walk_block_lists(vis, &mut item.1);
        }
        proof {
            let x = (inlines_view(v@[i as int].0), block_lists_view(v@[i as int].1));
            lemma_after_push(pre, x, walked_definitions(*vis, s0, i + 1));
            assert(definitions_view(*v).subrange(0, i + 1) =~= pre.push(x));
        }
        i += 1;
    }
    proof {
        assert(walked_definitions(*vis, s0, n as int).1 =~= Seq::empty());
        assert(definitions_view(*v).subrange(0, n as int) + Seq::empty() =~= definitions_view(*v));
        if old(vis).preserves() {
            assert(definitions_view(*v) =~= definitions_view(*old(v)));
        }
    }
}

fn walk_meta_entries<V: MutVisitor>(vis: &mut V, v: &mut Meta)
    ensures
        (*final(vis), meta_view(*final(v))) == walked_meta_entries(*old(vis), meta_view(*old(v)), 0),
        final(v)@.len() == old(v)@.len(),
        old(vis).preserves() ==> final(vis).preserves() && meta_view(*final(v)) == meta_view(*old(v)),
    decreases old(v)@, 0int,
{
    let ghost s0 = meta_view(*v);
    let ghost vis0 = *vis;
    let n = v.len();
    let mut i: usize = 0;
    proof {
        assert(meta_view(*v).subrange(0, 0) + walked_meta_entries(vis0, s0, 0).1 =~= walked_meta_entries(vis0, s0, 0).1);
    }
    while i < n
        invariant
            i <= n,
            n == v@.len() == old(v)@.len(),
            s0 == meta_view(*old(v)),
            vis0 == *old(vis),
            forall|j: int| i <= j < n ==> v@[j] == old(v)@[j],
            walked_meta_entries(vis0, s0, 0) == after(meta_view(*v).subrange(0, i as int), walked_meta_entries(*vis, s0, i as int)),
            old(vis).preserves() ==> vis.preserves() && forall|j: int|
                0 <= j < i ==> ((#[trigger] v@[j]).0@, meta_value_view((#[trigger] v@[j]).1)) == (old(v)@[j].0@, meta_value_view(old(v)@[j].1)),
        decreases n - i,
    {
        let ghost pre = meta_view(*v).subrange(0, i as int);
        proof {
            assert(s0[i as int] == (v@[i as int].0@, meta_value_view(v@[i as int].1)));
        }
        {
            let item = &mut v[i];
            enter_meta(vis, item.0.as_str(), &mut item.1);
        }
        proof {
            let x = (v@[i as int].0@, meta_value_view(v@[i as int].1));
            lemma_after_push(pre, x, walked_meta_entries(*vis, s0, i + 1));
            assert(meta_view(*v).subrange(0, i + 1) =~= pre.push(x));
        }
        i += 1;
    }
    proof {
        assert(walked_meta_entries(*vis, s0, n as int).1 =~= Seq::empty());
        assert(meta_view(*v).subrange(0, n as int) + Seq::empty() =~= meta_view(*v));
        if old(vis).preserves() {
            assert(meta_view(*v) =~= meta_view(*old(v)));
        }
    }
}

fn walk_meta_list<V: MutVisitor>(vis: &mut V, v: &mut Vec<MetaValue>)
    ensures
        (*final(vis), meta_values_view(*final(v))) == walked_meta_list(*old(vis), meta_values_view(*old(v)), 0),
        final(v)@.len() == old(v)@.len(),
        old(vis).preserves() ==> final(vis).preserves() && meta_values_view(*final(v)) == meta_values_view(*old(v)),
    decreases old(v)@, 0int,
{
    let ghost s0 = meta_values_view(*v);
    let ghost vis0 = *vis;
    let n = v.len();
    let mut i: usize = 0;
    proof {
        assert(meta_values_view(*v).subrange(0, 0) + walked_meta_list(vis0, s0, 0).1 =~= walked_meta_list(vis0, s0, 0).1);
    }
    while i < n
        invariant
            i <= n,
            n == v@.len() == old(v)@.len(),
            s0 == meta_values_view(*old(v)),
            vis0 == *old(vis),
            forall|j: int| i <= j < n ==> v@[j] == old(v)@[j],
            walked_meta_list(vis0, s0, 0) == after(meta_values_view(*v).subrange(0, i as int), walked_meta_list(*vis, s0, i as int)),
            old(vis).preserves() ==> vis.preserves() && forall|j: int|
                0 <= j < i ==> meta_value_view((#[trigger] v@[j])) == meta_value_view(old(v)@[j]),
        decreases n - i,
    {
        let ghost pre = meta_values_view(*v).subrange(0, i as int);
        proof {
            assert(s0[i as int] == meta_value_view(v@[i as int]));
        }
        {
            let item = &mut v[i];
            walk_meta(vis, item);
        }
        proof {
            let x = meta_value_view(v@[i as int]);
            lemma_after_push(pre, x, walked_meta_list(*vis, s0, i + 1));
            assert(meta_values_view(*v).subrange(0, i + 1) =~= pre.push(x));
        }
        i += 1;
    }
    proof {
        assert(walked_meta_list(*vis, s0, n as int).1 =~= Seq::empty());
        assert(meta_values_view(*v).subrange(0, n as int) + Seq::empty() =~= meta_values_view(*v));
        if old(vis).preserves() {
            assert(meta_values_view(*v) =~= meta_values_view(*old(v)));
        }
    }
}

/// Hands the metadata entries, then the blocks, to the visitor: the document becomes what
/// `walked_pandoc` states. A visitor that preserves what it is handed, such as [`NoOp`], leaves
/// the document structurally as it was.
pub fn walk_pandoc<V: MutVisitor>(vis: &mut V, pandoc: &mut Pandoc)
    ensures
        (*final(vis), pandoc_view(*final(pandoc))) == walked_pandoc(*old(vis), pandoc_view(*old(pandoc))),
        old(vis).preserves() ==> final(vis).preserves() && pandoc_view(*final(pandoc))
            == pandoc_view(*old(pandoc)),
{
    walk_meta_entries(vis, &mut pandoc.meta);
    enter_vec_block(vis, &mut pandoc.blocks);
}

/// Attributes have no children: there is nothing to walk.
pub fn walk_attr<V: MutVisitor>(vis: &mut V, attr: &mut Attr)
    ensures
        *final(vis) == *old(vis),
        *final(attr) == *old(attr),
{
}

/// Hands the children of a metadata value to the visitor: the entries of a map, through
/// `visit_meta`; the items of a list, walked in turn; the inlines or blocks it holds.
pub fn walk_meta<V: MutVisitor>(vis: &mut V, meta: &mut MetaValue)
    ensures
        (*final(vis), meta_value_view(*final(meta))) == walked_meta(*old(vis), meta_value_view(*old(meta))),
        same_meta_outline(*old(meta), *final(meta)),
        old(vis).preserves() ==> final(vis).preserves() && meta_value_view(*final(meta)) == meta_value_view(*old(meta)),
    decreases *old(meta), 0int,
{
    match meta {
        MetaValue::MetaMap(c) => {
            proof {
                assert(meta_value_view(*old(meta)) == MetaValueView::MetaMap(meta_view(*c)));
            }
            walk_meta_entries(vis, c)
        },
        MetaValue::MetaList(c) => {
            proof {
                assert(meta_value_view(*old(meta)) == MetaValueView::MetaList(meta_values_view(*c)));
            }
            walk_meta_list(vis, c)
        },
        MetaValue::MetaBool(_) => {},
        MetaValue::MetaString(_) => {},
        MetaValue::MetaInlines(c) => {
            proof {
                assert(meta_value_view(*old(meta)) == MetaValueView::MetaInlines(inlines_view(*c)));
            }
            enter_vec_inline(vis, c)
        },
        MetaValue::MetaBlocks(c) => {
            proof {
                assert(meta_value_view(*old(meta)) == MetaValueView::MetaBlocks(blocks_view(*c)));
            }
            enter_vec_block(vis, c)
        },
    }
}

/// Hands the children of an inline to the visitor, in the order of its fields: attributes,
/// then inline sequences; for a citation, each citation's prefix and suffix, then the inlines;
/// for a note, its blocks.
pub fn walk_inline<V: MutVisitor>(vis: &mut V, inline: &mut Inline)
    ensures
        (*final(vis), inline_view(*final(inline))) == walked_inline(*old(vis), inline_view(*old(inline))),
        same_inline_outline(*old(inline), *final(inline)),
        old(vis).preserves() ==> final(vis).preserves() && inline_view(*final(inline)) == inline_view(*old(inline)),
    decreases *old(inline), 0int,
{
    match inline {
        Inline::Str(_) => {},
        Inline::Emph(c) => {
            proof {
                assert(inline_view(*old(inline)) == inline_view(Inline::Emph(*c)));
            }
            enter_vec_inline(vis, c)
        },
        Inline::Underline(c) => {
            proof {
                assert(inline_view(*old(inline)) == inline_view(Inline::Underline(*c)));
            }
            enter_vec_inline(vis, c)
        },
        Inline::Strong(c) => {
            proof {
                assert(inline_view(*old(inline)) == inline_view(Inline::Strong(*c)));
            }
            enter_vec_inline(vis, c)
        },
        Inline::Strikeout(c) => {
            proof {
                assert(inline_view(*old(inline)) == inline_view(Inline::Strikeout(*c)));
            }
            enter_vec_inline(vis, c)
        },
        Inline::Superscript(c) => {
            proof {
                assert(inline_view(*old(inline)) == inline_view(Inline::Superscript(*c)));
            }
            enter_vec_inline(vis, c)
        },
        Inline::Subscript(c) => {
            proof {
                assert(inline_view(*old(inline)) == inline_view(Inline::Subscript(*c)));
            }
            enter_vec_inline(vis, c)
        },
        Inline::SmallCaps(c) => {
            proof {
                assert(inline_view(*old(inline)) == inline_view(Inline::SmallCaps(*c)));
            }
            enter_vec_inline(vis, c)
        },
        Inline::Quoted(f0, c) => {
            proof {
                assert(inline_view(*old(inline)) == inline_view(Inline::Quoted(*f0, *c)));
            }
            enter_vec_inline(vis, c)
        },
        Inline::Cite(cites, c) => {
            proof {
                assert(inline_view(*old(inline)) == inline_view(Inline::Cite(*cites, *c)));
            }

            walk_citations(vis, cites);
            enter_vec_inline(vis, c);
        },
        Inline::Code(attr, f0) => {
            proof {
                assert(inline_view(*old(inline)) == inline_view(Inline::Code(*attr, *f0)));
            }
            vis.visit_attr(attr)
        },
        Inline::Space => {},
        Inline::SoftBreak => {},
        Inline::LineBreak => {},
        Inline::Math(_, _) => {},
        Inline::RawInline(_, _) => {},
        Inline::Link(attr, c, f0) => {
            proof {
                assert(inline_view(*old(inline)) == inline_view(Inline::Link(*attr, *c, *f0)));
            }

            vis.visit_attr(attr);
            enter_vec_inline(vis, c);
        },
        Inline::Image(attr, c, f0) => {
            proof {
                assert(inline_view(*old(inline)) == inline_view(Inline::Image(*attr, *c, *f0)));
            }

            vis.visit_attr(attr);
            enter_vec_inline(vis, c);
        },
        Inline::Note(c) => {
            proof {
                assert(inline_view(*old(inline)) == inline_view(Inline::Note(*c)));
            }
            enter_vec_block(vis, c)
        },
        Inline::Span(attr, c) => {
            proof {
                assert(inline_view(*old(inline)) == inline_view(Inline::Span(*attr, *c)));
            }

            vis.visit_attr(attr);
            enter_vec_inline(vis, c);
        },
    }
}

/// Hands the children of a block to the visitor, in the order of its fields. A table goes
/// attributes, caption (short caption, then blocks), head (attributes, rows), each body
/// (attributes, header rows, rows), foot (attributes, rows).
pub fn walk_block<V: MutVisitor>(vis: &mut V, block: &mut Block)
    ensures
        (*final(vis), block_view(*final(block))) == walked_block(*old(vis), block_view(*old(block))),
        same_block_outline(*old(block), *final(block)),
        old(vis).preserves() ==> final(vis).preserves() && block_view(*final(block)) == block_view(*old(block)),
    decreases *old(block), 0int,
{
    match block {
        Block::Plain(c) => {
            proof {
                assert(block_view(*old(block)) == block_view(Block::Plain(*c)));
            }
            enter_vec_inline(vis, c)
        },
        Block::Para(c) => {
            proof {
                assert(block_view(*old(block)) == block_view(Block::Para(*c)));
            }
            enter_vec_inline(vis, c)
        },
        Block::LineBlock(c) => {
            proof {
                assert(block_view(*old(block)) == block_view(Block::LineBlock(*c)));
            }
            walk_inline_lists(vis, c)
        },
        Block::CodeBlock(attr, f0) => {
            proof {
                assert(block_view(*old(block)) == block_view(Block::CodeBlock(*attr, *f0)));
            }
            vis.visit_attr(attr)
        },
        Block::RawBlock(_, _) => {},
        Block::BlockQuote(c) => {
            proof {
                assert(block_view(*old(block)) == block_view(Block::BlockQuote(*c)));
            }
            enter_vec_block(vis, c)
        },
        Block::OrderedList(f0, c) => {
            proof {
                assert(block_view(*old(block)) == block_view(Block::OrderedList(*f0, *c)));
            }
            walk_block_lists(vis, c)
        },
        Block::BulletList(c) => {
            proof {
                assert(block_view(*old(block)) == block_view(Block::BulletList(*c)));
            }
            walk_block_lists(vis, c)
        },
        Block::DefinitionList(c) => {
            proof {
                assert(block_view(*old(block)) == block_view(Block::DefinitionList(*c)));
            }
            walk_definitions(vis, c)
        },
        Block::Figure(attr, caption, c) => {
            proof {
                assert(block_view(*old(block)) == block_view(Block::Figure(*attr, *caption, *c)));
            }

            vis.visit_attr(attr);
            walk_caption(vis, caption);
            enter_vec_block(vis, c);
        },
        Block::Header(f0, attr, c) => {
            proof {
                assert(block_view(*old(block)) == block_view(Block::Header(*f0, *attr, *c)));
            }

            vis.visit_attr(attr);
            enter_vec_inline(vis, c);
        },
        Block::HorizontalRule => {},
        Block::Table(attr, caption, f0, head, bodies, foot) => {
            proof {
                assert(block_view(*old(block)) == block_view(Block::Table(*attr, *caption, *f0, *head, *bodies, *foot)));
            }

            vis.visit_attr(attr);
            walk_caption(vis, caption);
            vis.visit_attr(&mut head.0);
            enter_rows(vis, &mut head.1);
            walk_bodies(vis, bodies);
            vis.visit_attr(&mut foot.0);
            enter_rows(vis, &mut foot.1);
        },
        Block::Div(attr, c) => {
            proof {
                assert(block_view(*old(block)) == block_view(Block::Div(*attr, *c)));
            }

            vis.visit_attr(attr);
            enter_vec_block(vis, c);
        },
        Block::Null => {},
    }
}

fn walk_caption<V: MutVisitor>(vis: &mut V, caption: &mut Caption)
    ensures
        (*final(vis), caption_view(*final(caption))) == walked_caption(*old(vis), caption_view(*old(caption))),
        old(vis).preserves() ==> final(vis).preserves() && caption_view(*final(caption)) == caption_view(*old(caption)),
    decreases *old(caption), 0int,
{
    proof {
        assert(caption_view(*old(caption)).1 == blocks_view(caption.1));
    }
    match &mut caption.0 {
        Some(short) => {
            proof {
                assert(caption_view(*old(caption)).0 == Some(inlines_view(*short)));
            }
            enter_vec_inline(vis, short)
        },
        None => {},
    }
    enter_vec_block(vis, &mut caption.1);
}

} // verus!
