//! Mathematical views of the document tree: every `Vec` seen as a `Seq`, every `String` as a
//! `Seq<char>`. Two trees are structurally equal when their views are equal.
use vstd::prelude::*;

use crate::model::{
    Alignment, Attr, Block, Caption, Cell, Citation, CitationMode, ColSpec, Inline,
    ListNumberDelim, ListNumberStyle, MathType, Meta, MetaValue, Pandoc, QuoteType, Row,
    TableBody, Target,
};

verus! {

pub type Text = Seq<char>;

pub type AttrView = (Text, Seq<Text>, Seq<(Text, Text)>);

pub type TargetView = (Text, Text);

pub type CaptionView = (Option<Seq<InlineView>>, Seq<BlockView>);

pub type CellView = (AttrView, Alignment, i64, i64, Seq<BlockView>);

pub type RowView = (AttrView, Seq<CellView>);

pub type TableBodyView = (AttrView, i64, Seq<RowView>, Seq<RowView>);

pub type MetaView = Seq<(Text, MetaValueView)>;

pub struct PandocView {
    pub meta: MetaView,
    pub blocks: Seq<BlockView>,
    pub version: Seq<u32>,
}

pub enum MetaValueView {
    MetaMap(MetaView),
    MetaList(Seq<MetaValueView>),
    MetaBool(bool),
    MetaString(Text),
    MetaInlines(Seq<InlineView>),
    MetaBlocks(Seq<BlockView>),
}

pub enum BlockView {
    Plain(Seq<InlineView>),
    Para(Seq<InlineView>),
    LineBlock(Seq<Seq<InlineView>>),
    CodeBlock(AttrView, Text),
    RawBlock(Text, Text),
    BlockQuote(Seq<BlockView>),
    OrderedList((i64, ListNumberStyle, ListNumberDelim), Seq<Seq<BlockView>>),
    BulletList(Seq<Seq<BlockView>>),
    DefinitionList(Seq<(Seq<InlineView>, Seq<Seq<BlockView>>)>),
    Figure(AttrView, CaptionView, Seq<BlockView>),
    Header(i64, AttrView, Seq<InlineView>),
    HorizontalRule,
    Table(
        AttrView,
        CaptionView,
        Seq<ColSpec>,
        (AttrView, Seq<RowView>),
        Seq<TableBodyView>,
        (AttrView, Seq<RowView>),
    ),
    Div(AttrView, Seq<BlockView>),
    Null,
}

pub enum InlineView {
    Str(Text),
    Emph(Seq<InlineView>),
    Underline(Seq<InlineView>),
    Strong(Seq<InlineView>),
    Strikeout(Seq<InlineView>),
    Superscript(Seq<InlineView>),
    Subscript(Seq<InlineView>),
    SmallCaps(Seq<InlineView>),
    Quoted(QuoteType, Seq<InlineView>),
    Cite(Seq<CitationView>, Seq<InlineView>),
    Code(AttrView, Text),
    Space,
    SoftBreak,
    LineBreak,
    Math(MathType, Text),
    RawInline(Text, Text),
    Link(AttrView, Seq<InlineView>, TargetView),
    Image(AttrView, Seq<InlineView>, TargetView),
    Note(Seq<BlockView>),
    Span(AttrView, Seq<InlineView>),
}

pub struct CitationView {
    pub id: Text,
    pub prefix: Seq<InlineView>,
    pub suffix: Seq<InlineView>,
    pub mode: CitationMode,
    pub note_num: i64,
    pub hash: i64,
}

pub open spec fn strings_view(v: Vec<String>) -> Seq<Text> {
    v@.map_values(|s: String| s@)
}

pub open spec fn attr_view(a: Attr) -> AttrView {
    (a.0@, strings_view(a.1), a.2@.map_values(|p: (String, String)| (p.0@, p.1@)))
}

pub open spec fn target_view(t: Target) -> TargetView {
    (t.0@, t.1@)
}

pub open spec fn pandoc_view(d: Pandoc) -> PandocView {
    PandocView { meta: meta_view(d.meta), blocks: blocks_view(d.blocks), version: d.pandoc_api_version@ }
}

pub open spec fn meta_view(m: Meta) -> MetaView
    decreases m,
{
    Seq::new(
        m@.len(),
        |k: int|
            if 0 <= k < m@.len() {
                (m@[k].0@, meta_value_view(m@[k].1))
            } else {
                arbitrary()
            },
    )
}

pub open spec fn meta_value_view(m: MetaValue) -> MetaValueView
    decreases m,
{
    match m {
        MetaValue::MetaMap(c) => MetaValueView::MetaMap(meta_view(c)),
        MetaValue::MetaList(c) => MetaValueView::MetaList(meta_values_view(c)),
        MetaValue::MetaBool(b) => MetaValueView::MetaBool(b),
        MetaValue::MetaString(s) => MetaValueView::MetaString(s@),
        MetaValue::MetaInlines(c) => MetaValueView::MetaInlines(inlines_view(c)),
        MetaValue::MetaBlocks(c) => MetaValueView::MetaBlocks(blocks_view(c)),
    }
}

pub open spec fn meta_values_view(v: Vec<MetaValue>) -> Seq<MetaValueView>
    decreases v,
{
    Seq::new(
        v@.len(),
        |k: int|
            if 0 <= k < v@.len() {
                meta_value_view(v@[k])
            } else {
                arbitrary()
            },
    )
}

pub open spec fn inlines_view(v: Vec<Inline>) -> Seq<InlineView>
    decreases v,
{
    Seq::new(
        v@.len(),
        |k: int|
            if 0 <= k < v@.len() {
                inline_view(v@[k])
            } else {
                arbitrary()
            },
    )
}

pub open spec fn blocks_view(v: Vec<Block>) -> Seq<BlockView>
    decreases v,
{
    Seq::new(
        v@.len(),
        |k: int|
            if 0 <= k < v@.len() {
                block_view(v@[k])
            } else {
                arbitrary()
            },
    )
}

pub open spec fn inline_lists_view(v: Vec<Vec<Inline>>) -> Seq<Seq<InlineView>>
    decreases v,
{
    Seq::new(
        v@.len(),
        |k: int|
            if 0 <= k < v@.len() {
                inlines_view(v@[k])
            } else {
                arbitrary()
            },
    )
}

pub open spec fn block_lists_view(v: Vec<Vec<Block>>) -> Seq<Seq<BlockView>>
    decreases v,
{
    Seq::new(
        v@.len(),
        |k: int|
            if 0 <= k < v@.len() {
                blocks_view(v@[k])
            } else {
                arbitrary()
            },
    )
}

pub open spec fn definitions_view(v: Vec<(Vec<Inline>, Vec<Vec<Block>>)>) -> Seq<
    (Seq<InlineView>, Seq<Seq<BlockView>>),
>
    decreases v,
{
    Seq::new(
        v@.len(),
        |k: int|
            if 0 <= k < v@.len() {
                (inlines_view(v@[k].0), block_lists_view(v@[k].1))
            } else {
                arbitrary()
            },
    )
}

pub open spec fn caption_view(c: Caption) -> CaptionView
    decreases c,
{
    (
        match c.0 {
            Some(s) => Some(inlines_view(s)),
            None => None,
        },
        blocks_view(c.1),
    )
}

pub open spec fn cells_view(v: Vec<Cell>) -> Seq<CellView>
    decreases v,
{
    Seq::new(
        v@.len(),
        |k: int|
            if 0 <= k < v@.len() {
                cell_view(v@[k])
            } else {
                arbitrary()
            },
    )
}

pub open spec fn rows_view(v: Vec<Row>) -> Seq<RowView>
    decreases v,
{
    Seq::new(
        v@.len(),
        |k: int|
            if 0 <= k < v@.len() {
                row_view(v@[k])
            } else {
                arbitrary()
            },
    )
}

pub open spec fn bodies_view(v: Vec<TableBody>) -> Seq<TableBodyView>
    decreases v,
{
    Seq::new(
        v@.len(),
        |k: int|
            if 0 <= k < v@.len() {
                body_view(v@[k])
            } else {
                arbitrary()
            },
    )
}

pub open spec fn citations_view(v: Vec<Citation>) -> Seq<CitationView>
    decreases v,
{
    Seq::new(
        v@.len(),
        |k: int|
            if 0 <= k < v@.len() {
                citation_view(v@[k])
            } else {
                arbitrary()
            },
    )
}

pub open spec fn cell_view(c: Cell) -> CellView
    decreases c,
{
    (attr_view(c.0), c.1, c.2, c.3, blocks_view(c.4))
}

pub open spec fn row_view(r: Row) -> RowView
    decreases r,
{
    (attr_view(r.0), cells_view(r.1))
}

pub open spec fn body_view(b: TableBody) -> TableBodyView
    decreases b,
{
    (attr_view(b.0), b.1, rows_view(b.2), rows_view(b.3))
}

pub open spec fn citation_view(c: Citation) -> CitationView
    decreases c,
{
    CitationView {
        id: c.citationId@,
        prefix: inlines_view(c.citationPrefix),
        suffix: inlines_view(c.citationSuffix),
        mode: c.citationMode,
        note_num: c.citationNoteNum,
        hash: c.citationHash,
    }
}

pub open spec fn block_view(b: Block) -> BlockView
    decreases b,
{
    match b {
        Block::Plain(c) => BlockView::Plain(inlines_view(c)),
        Block::Para(c) => BlockView::Para(inlines_view(c)),
        Block::LineBlock(c) => BlockView::LineBlock(inline_lists_view(c)),
        Block::CodeBlock(a, s) => BlockView::CodeBlock(attr_view(a), s@),
        Block::RawBlock(f, s) => BlockView::RawBlock(f.0@, s@),
        Block::BlockQuote(c) => BlockView::BlockQuote(blocks_view(c)),
        Block::OrderedList(l, c) => BlockView::OrderedList(l, block_lists_view(c)),
        Block::BulletList(c) => BlockView::BulletList(block_lists_view(c)),
        Block::DefinitionList(c) => BlockView::DefinitionList(definitions_view(c)),
        Block::Figure(a, cap, c) => BlockView::Figure(attr_view(a), caption_view(cap), blocks_view(c)),
        Block::Header(l, a, c) => BlockView::Header(l, attr_view(a), inlines_view(c)),
        Block::HorizontalRule => BlockView::HorizontalRule,
        Block::Table(a, cap, cols, head, bodies, foot) => BlockView::Table(
            attr_view(a),
            caption_view(cap),
            cols@,
            (attr_view(head.0), rows_view(head.1)),
            bodies_view(bodies),
            (attr_view(foot.0), rows_view(foot.1)),
        ),
        Block::Div(a, c) => BlockView::Div(attr_view(a), blocks_view(c)),
        Block::Null => BlockView::Null,
    }
}

pub open spec fn inline_view(i: Inline) -> InlineView
    decreases i,
{
    match i {
        Inline::Str(s) => InlineView::Str(s@),
        Inline::Emph(c) => InlineView::Emph(inlines_view(c)),
        Inline::Underline(c) => InlineView::Underline(inlines_view(c)),
        Inline::Strong(c) => InlineView::Strong(inlines_view(c)),
        Inline::Strikeout(c) => InlineView::Strikeout(inlines_view(c)),
        Inline::Superscript(c) => InlineView::Superscript(inlines_view(c)),
        Inline::Subscript(c) => InlineView::Subscript(inlines_view(c)),
        Inline::SmallCaps(c) => InlineView::SmallCaps(inlines_view(c)),
        Inline::Quoted(q, c) => InlineView::Quoted(q, inlines_view(c)),
        Inline::Cite(cs, c) => InlineView::Cite(citations_view(cs), inlines_view(c)),
        Inline::Code(a, s) => InlineView::Code(attr_view(a), s@),
        Inline::Space => InlineView::Space,
        Inline::SoftBreak => InlineView::SoftBreak,
        Inline::LineBreak => InlineView::LineBreak,
        Inline::Math(m, s) => InlineView::Math(m, s@),
        Inline::RawInline(f, s) => InlineView::RawInline(f.0@, s@),
        Inline::Link(a, c, t) => InlineView::Link(attr_view(a), inlines_view(c), target_view(t)),
        Inline::Image(a, c, t) => InlineView::Image(attr_view(a), inlines_view(c), target_view(t)),
        Inline::Note(c) => InlineView::Note(blocks_view(c)),
        Inline::Span(a, c) => InlineView::Span(attr_view(a), inlines_view(c)),
    }
}

} // verus!
