//! The wire form of a document, stated over views: how each node is written as JSON
//! (`enc_*`), and what reading a JSON value gives (`dec_*`).
//!
//! A variant with fields is an object `{"t": name, "c": payload}`; a variant without fields is
//! `{"t": name}`. A payload of several fields is an array of them, in order. Tuples are arrays,
//! strings are strings, a format is a bare string, a missing short caption is null.
use vstd::prelude::*;

use crate::error::{mismatch, within, Category, DecodeErrorView, Expected, PathStepView};
use crate::json::JsonView;
use crate::model::{Alignment, CitationMode, ColSpec, ColWidth, ListNumberDelim, ListNumberStyle, MathType, QuoteType};
use crate::view::{
    AttrView, BlockView, CaptionView, CellView, CitationView, InlineView, MetaValueView, MetaView,
    PandocView, RowView, TableBodyView, TargetView, Text,
};

verus! {

pub type J = JsonView;

pub type E = DecodeErrorView;

/// The major version a document must have.
pub const REQUIRED_MAJOR: i64 = 1;

/// The lowest minor version a document may have.
pub const REQUIRED_MINOR: i64 = 20;

#[derive(Debug, Clone, Copy, PartialEq, Eq, Structural)]
pub enum MetaKind {
    MetaMap,
    MetaList,
    MetaBool,
    MetaString,
    MetaInlines,
    MetaBlocks,
}

#[derive(Debug, Clone, Copy, PartialEq, Eq, Structural)]
pub enum BlockKind {
    Plain,
    Para,
    LineBlock,
    CodeBlock,
    RawBlock,
    BlockQuote,
    OrderedList,
    BulletList,
    DefinitionList,
    Figure,
    Header,
    HorizontalRule,
    Table,
    Div,
    Null,
}

#[derive(Debug, Clone, Copy, PartialEq, Eq, Structural)]
pub enum InlineKind {
    Str,
    Emph,
    Underline,
    Strong,
    Strikeout,
    Superscript,
    Subscript,
    SmallCaps,
    Quoted,
    Cite,
    Code,
    Space,
    SoftBreak,
    LineBreak,
    Math,
    RawInline,
    Link,
    Image,
    Note,
    Span,
}

// ---------------------------------------------------------------- names

pub open spec fn meta_name(k: MetaKind) -> Text {
    match k {
        MetaKind::MetaMap => "MetaMap"@,
        MetaKind::MetaList => "MetaList"@,
        MetaKind::MetaBool => "MetaBool"@,
        MetaKind::MetaString => "MetaString"@,
        MetaKind::MetaInlines => "MetaInlines"@,
        MetaKind::MetaBlocks => "MetaBlocks"@,
    }
}

pub open spec fn block_name(k: BlockKind) -> Text {
    match k {
        BlockKind::Plain => "Plain"@,
        BlockKind::Para => "Para"@,
        BlockKind::LineBlock => "LineBlock"@,
        BlockKind::CodeBlock => "CodeBlock"@,
        BlockKind::RawBlock => "RawBlock"@,
        BlockKind::BlockQuote => "BlockQuote"@,
        BlockKind::OrderedList => "OrderedList"@,
        BlockKind::BulletList => "BulletList"@,
        BlockKind::DefinitionList => "DefinitionList"@,
        BlockKind::Figure => "Figure"@,
        BlockKind::Header => "Header"@,
        BlockKind::HorizontalRule => "HorizontalRule"@,
        BlockKind::Table => "Table"@,
        BlockKind::Div => "Div"@,
        BlockKind::Null => "Null"@,
    }
}

pub open spec fn inline_name(k: InlineKind) -> Text {
    match k {
        InlineKind::Str => "Str"@,
        InlineKind::Emph => "Emph"@,
        InlineKind::Underline => "Underline"@,
        InlineKind::Strong => "Strong"@,
        InlineKind::Strikeout => "Strikeout"@,
        InlineKind::Superscript => "Superscript"@,
        InlineKind::Subscript => "Subscript"@,
        InlineKind::SmallCaps => "SmallCaps"@,
        InlineKind::Quoted => "Quoted"@,
        InlineKind::Cite => "Cite"@,
        InlineKind::Code => "Code"@,
        InlineKind::Space => "Space"@,
        InlineKind::SoftBreak => "SoftBreak"@,
        InlineKind::LineBreak => "LineBreak"@,
        InlineKind::Math => "Math"@,
        InlineKind::RawInline => "RawInline"@,
        InlineKind::Link => "Link"@,
        InlineKind::Image => "Image"@,
        InlineKind::Note => "Note"@,
        InlineKind::Span => "Span"@,
    }
}

pub open spec fn alignment_name(a: Alignment) -> Text {
    match a {
        Alignment::AlignLeft => "AlignLeft"@,
        Alignment::AlignRight => "AlignRight"@,
        Alignment::AlignCenter => "AlignCenter"@,
        Alignment::AlignDefault => "AlignDefault"@,
    }
}

pub open spec fn style_name(s: ListNumberStyle) -> Text {
    match s {
        ListNumberStyle::DefaultStyle => "DefaultStyle"@,
        ListNumberStyle::Example => "Example"@,
        ListNumberStyle::Decimal => "Decimal"@,
        ListNumberStyle::LowerRoman => "LowerRoman"@,
        ListNumberStyle::UpperRoman => "UpperRoman"@,
        ListNumberStyle::LowerAlpha => "LowerAlpha"@,
        ListNumberStyle::UpperAlpha => "UpperAlpha"@,
    }
}

pub open spec fn delim_name(d: ListNumberDelim) -> Text {
    match d {
        ListNumberDelim::DefaultDelim => "DefaultDelim"@,
        ListNumberDelim::Period => "Period"@,
        ListNumberDelim::OneParen => "OneParen"@,
        ListNumberDelim::TwoParens => "TwoParens"@,
    }
}

pub open spec fn quote_name(q: QuoteType) -> Text {
    match q {
        QuoteType::SingleQuote => "SingleQuote"@,
        QuoteType::DoubleQuote => "DoubleQuote"@,
    }
}

pub open spec fn math_name(m: MathType) -> Text {
    match m {
        MathType::DisplayMath => "DisplayMath"@,
        MathType::InlineMath => "InlineMath"@,
    }
}

pub open spec fn mode_name(m: CitationMode) -> Text {
    match m {
        CitationMode::AuthorInText => "AuthorInText"@,
        CitationMode::SuppressAuthor => "SuppressAuthor"@,
        CitationMode::NormalCitation => "NormalCitation"@,
    }
}

/// The kind that a tag names, if any.
pub open spec fn meta_kind_of(t: Text) -> Option<MetaKind> {
    if t == meta_name(MetaKind::MetaMap) { Some(MetaKind::MetaMap) }
    else if t == meta_name(MetaKind::MetaList) { Some(MetaKind::MetaList) }
    else if t == meta_name(MetaKind::MetaBool) { Some(MetaKind::MetaBool) }
    else if t == meta_name(MetaKind::MetaString) { Some(MetaKind::MetaString) }
    else if t == meta_name(MetaKind::MetaInlines) { Some(MetaKind::MetaInlines) }
    else if t == meta_name(MetaKind::MetaBlocks) { Some(MetaKind::MetaBlocks) }
    else { None }
}

pub open spec fn block_kind_of(t: Text) -> Option<BlockKind> {
    if t == block_name(BlockKind::Plain) { Some(BlockKind::Plain) }
    else if t == block_name(BlockKind::Para) { Some(BlockKind::Para) }
    else if t == block_name(BlockKind::LineBlock) { Some(BlockKind::LineBlock) }
    else if t == block_name(BlockKind::CodeBlock) { Some(BlockKind::CodeBlock) }
    else if t == block_name(BlockKind::RawBlock) { Some(BlockKind::RawBlock) }
    else if t == block_name(BlockKind::BlockQuote) { Some(BlockKind::BlockQuote) }
    else if t == block_name(BlockKind::OrderedList) { Some(BlockKind::OrderedList) }
    else if t == block_name(BlockKind::BulletList) { Some(BlockKind::BulletList) }
    else if t == block_name(BlockKind::DefinitionList) { Some(BlockKind::DefinitionList) }
    else if t == block_name(BlockKind::Figure) { Some(BlockKind::Figure) }
    else if t == block_name(BlockKind::Header) { Some(BlockKind::Header) }
    else if t == block_name(BlockKind::HorizontalRule) { Some(BlockKind::HorizontalRule) }
    else if t == block_name(BlockKind::Table) { Some(BlockKind::Table) }
    else if t == block_name(BlockKind::Div) { Some(BlockKind::Div) }
    else if t == block_name(BlockKind::Null) { Some(BlockKind::Null) }
    else { None }
}

pub open spec fn inline_kind_of(t: Text) -> Option<InlineKind> {
    if t == inline_name(InlineKind::Str) { Some(InlineKind::Str) }
    else if t == inline_name(InlineKind::Emph) { Some(InlineKind::Emph) }
    else if t == inline_name(InlineKind::Underline) { Some(InlineKind::Underline) }
    else if t == inline_name(InlineKind::Strong) { Some(InlineKind::Strong) }
    else if t == inline_name(InlineKind::Strikeout) { Some(InlineKind::Strikeout) }
    else if t == inline_name(InlineKind::Superscript) { Some(InlineKind::Superscript) }
    else if t == inline_name(InlineKind::Subscript) { Some(InlineKind::Subscript) }
    else if t == inline_name(InlineKind::SmallCaps) { Some(InlineKind::SmallCaps) }
    else if t == inline_name(InlineKind::Quoted) { Some(InlineKind::Quoted) }
    else if t == inline_name(InlineKind::Cite) { Some(InlineKind::Cite) }
    else if t == inline_name(InlineKind::Code) { Some(InlineKind::Code) }
    else if t == inline_name(InlineKind::Space) { Some(InlineKind::Space) }
    else if t == inline_name(InlineKind::SoftBreak) { Some(InlineKind::SoftBreak) }
    else if t == inline_name(InlineKind::LineBreak) { Some(InlineKind::LineBreak) }
    else if t == inline_name(InlineKind::Math) { Some(InlineKind::Math) }
    else if t == inline_name(InlineKind::RawInline) { Some(InlineKind::RawInline) }
    else if t == inline_name(InlineKind::Link) { Some(InlineKind::Link) }
    else if t == inline_name(InlineKind::Image) { Some(InlineKind::Image) }
    else if t == inline_name(InlineKind::Note) { Some(InlineKind::Note) }
    else if t == inline_name(InlineKind::Span) { Some(InlineKind::Span) }
    else { None }
}

pub open spec fn alignment_of(t: Text) -> Option<Alignment> {
    if t == alignment_name(Alignment::AlignLeft) { Some(Alignment::AlignLeft) }
    else if t == alignment_name(Alignment::AlignRight) { Some(Alignment::AlignRight) }
    else if t == alignment_name(Alignment::AlignCenter) { Some(Alignment::AlignCenter) }
    else if t == alignment_name(Alignment::AlignDefault) { Some(Alignment::AlignDefault) }
    else { None }
}

pub open spec fn style_of(t: Text) -> Option<ListNumberStyle> {
    if t == style_name(ListNumberStyle::DefaultStyle) { Some(ListNumberStyle::DefaultStyle) }
    else if t == style_name(ListNumberStyle::Example) { Some(ListNumberStyle::Example) }
    else if t == style_name(ListNumberStyle::Decimal) { Some(ListNumberStyle::Decimal) }
    else if t == style_name(ListNumberStyle::LowerRoman) { Some(ListNumberStyle::LowerRoman) }
    else if t == style_name(ListNumberStyle::UpperRoman) { Some(ListNumberStyle::UpperRoman) }
    else if t == style_name(ListNumberStyle::LowerAlpha) { Some(ListNumberStyle::LowerAlpha) }
    else if t == style_name(ListNumberStyle::UpperAlpha) { Some(ListNumberStyle::UpperAlpha) }
    else { None }
}

pub open spec fn delim_of(t: Text) -> Option<ListNumberDelim> {
    if t == delim_name(ListNumberDelim::DefaultDelim) { Some(ListNumberDelim::DefaultDelim) }
    else if t == delim_name(ListNumberDelim::Period) { Some(ListNumberDelim::Period) }
    else if t == delim_name(ListNumberDelim::OneParen) { Some(ListNumberDelim::OneParen) }
    else if t == delim_name(ListNumberDelim::TwoParens) { Some(ListNumberDelim::TwoParens) }
    else { None }
}

pub open spec fn quote_of(t: Text) -> Option<QuoteType> {
    if t == quote_name(QuoteType::SingleQuote) { Some(QuoteType::SingleQuote) }
    else if t == quote_name(QuoteType::DoubleQuote) { Some(QuoteType::DoubleQuote) }
    else { None }
}

pub open spec fn math_of(t: Text) -> Option<MathType> {
    if t == math_name(MathType::DisplayMath) { Some(MathType::DisplayMath) }
    else if t == math_name(MathType::InlineMath) { Some(MathType::InlineMath) }
    else { None }
}

pub open spec fn mode_of(t: Text) -> Option<CitationMode> {
    if t == mode_name(CitationMode::AuthorInText) { Some(CitationMode::AuthorInText) }
    else if t == mode_name(CitationMode::SuppressAuthor) { Some(CitationMode::SuppressAuthor) }
    else if t == mode_name(CitationMode::NormalCitation) { Some(CitationMode::NormalCitation) }
    else { None }
}

// ---------------------------------------------------------------- names are told apart

/// Each name of a MetaKind is read back as the variant it names.
pub proof fn lemma_meta_names(k: MetaKind)
    ensures
        meta_kind_of(meta_name(k)) == Some(k),
{
    broadcast use vstd::string::group_string_axioms;

    reveal_strlit("MetaMap");
    reveal_strlit("MetaList");
    reveal_strlit("MetaBool");
    reveal_strlit("MetaString");
    reveal_strlit("MetaInlines");
    reveal_strlit("MetaBlocks");
    assert(meta_name(MetaKind::MetaMap).len() == 7);
    assert(meta_name(MetaKind::MetaList).len() == 8 && meta_name(MetaKind::MetaList)[4] == 'L');
    assert(meta_name(MetaKind::MetaBool).len() == 8 && meta_name(MetaKind::MetaBool)[4] == 'B');
    assert(meta_name(MetaKind::MetaString).len() == 10 && meta_name(MetaKind::MetaString)[4] == 'S');
    assert(meta_name(MetaKind::MetaInlines).len() == 11);
    assert(meta_name(MetaKind::MetaBlocks).len() == 10 && meta_name(MetaKind::MetaBlocks)[4] == 'B');
}

/// Each name of a BlockKind is read back as the variant it names.
pub proof fn lemma_block_names(k: BlockKind)
    ensures
        block_kind_of(block_name(k)) == Some(k),
{
    broadcast use vstd::string::group_string_axioms;

    reveal_strlit("Plain");
    reveal_strlit("Para");
    reveal_strlit("LineBlock");
    reveal_strlit("CodeBlock");
    reveal_strlit("RawBlock");
    reveal_strlit("BlockQuote");
    reveal_strlit("OrderedList");
    reveal_strlit("BulletList");
    reveal_strlit("DefinitionList");
    reveal_strlit("Figure");
    reveal_strlit("Header");
    reveal_strlit("HorizontalRule");
    reveal_strlit("Table");
    reveal_strlit("Div");
    reveal_strlit("Null");
    assert(block_name(BlockKind::Plain).len() == 5 && block_name(BlockKind::Plain)[0] == 'P');
    assert(block_name(BlockKind::Para).len() == 4 && block_name(BlockKind::Para)[0] == 'P');
    assert(block_name(BlockKind::LineBlock).len() == 9 && block_name(BlockKind::LineBlock)[0] == 'L');
    assert(block_name(BlockKind::CodeBlock).len() == 9 && block_name(BlockKind::CodeBlock)[0] == 'C');
    assert(block_name(BlockKind::RawBlock).len() == 8);
    assert(block_name(BlockKind::BlockQuote).len() == 10 && block_name(BlockKind::BlockQuote)[1] == 'l');
    assert(block_name(BlockKind::OrderedList).len() == 11);
    assert(block_name(BlockKind::BulletList).len() == 10 && block_name(BlockKind::BulletList)[1] == 'u');
    assert(block_name(BlockKind::DefinitionList).len() == 14 && block_name(BlockKind::DefinitionList)[0] == 'D');
    assert(block_name(BlockKind::Figure).len() == 6 && block_name(BlockKind::Figure)[0] == 'F');
    assert(block_name(BlockKind::Header).len() == 6 && block_name(BlockKind::Header)[0] == 'H');
    assert(block_name(BlockKind::HorizontalRule).len() == 14 && block_name(BlockKind::HorizontalRule)[0] == 'H');
    assert(block_name(BlockKind::Table).len() == 5 && block_name(BlockKind::Table)[0] == 'T');
    assert(block_name(BlockKind::Div).len() == 3);
    assert(block_name(BlockKind::Null).len() == 4 && block_name(BlockKind::Null)[0] == 'N');
}

/// Each name of a InlineKind is read back as the variant it names.
pub proof fn lemma_inline_names(k: InlineKind)
    ensures
        inline_kind_of(inline_name(k)) == Some(k),
{
    broadcast use vstd::string::group_string_axioms;

    reveal_strlit("Str");
    reveal_strlit("Emph");
    reveal_strlit("Underline");
    reveal_strlit("Strong");
    reveal_strlit("Strikeout");
    reveal_strlit("Superscript");
    reveal_strlit("Subscript");
    reveal_strlit("SmallCaps");
    reveal_strlit("Quoted");
    reveal_strlit("Cite");
    reveal_strlit("Code");
    reveal_strlit("Space");
    reveal_strlit("SoftBreak");
    reveal_strlit("LineBreak");
    reveal_strlit("Math");
    reveal_strlit("RawInline");
    reveal_strlit("Link");
    reveal_strlit("Image");
    reveal_strlit("Note");
    reveal_strlit("Span");
    assert(inline_name(InlineKind::Str).len() == 3);
    assert(inline_name(InlineKind::Emph).len() == 4 && inline_name(InlineKind::Emph)[0] == 'E');
    assert(inline_name(InlineKind::Underline).len() == 9 && inline_name(InlineKind::Underline)[0] == 'U');
    assert(inline_name(InlineKind::Strong).len() == 6 && inline_name(InlineKind::Strong)[0] == 'S');
    assert(inline_name(InlineKind::Strikeout).len() == 9 && inline_name(InlineKind::Strikeout)[0] == 'S' && inline_name(InlineKind::Strikeout)[1] == 't');
    assert(inline_name(InlineKind::Superscript).len() == 11);
    assert(inline_name(InlineKind::Subscript).len() == 9 && inline_name(InlineKind::Subscript)[0] == 'S' && inline_name(InlineKind::Subscript)[1] == 'u');
    assert(inline_name(InlineKind::SmallCaps).len() == 9 && inline_name(InlineKind::SmallCaps)[0] == 'S' && inline_name(InlineKind::SmallCaps)[1] == 'm');
    assert(inline_name(InlineKind::Quoted).len() == 6 && inline_name(InlineKind::Quoted)[0] == 'Q');
    assert(inline_name(InlineKind::Cite).len() == 4 && inline_name(InlineKind::Cite)[0] == 'C' && inline_name(InlineKind::Cite)[1] == 'i');
    assert(inline_name(InlineKind::Code).len() == 4 && inline_name(InlineKind::Code)[0] == 'C' && inline_name(InlineKind::Code)[1] == 'o');
    assert(inline_name(InlineKind::Space).len() == 5 && inline_name(InlineKind::Space)[0] == 'S');
    assert(inline_name(InlineKind::SoftBreak).len() == 9 && inline_name(InlineKind::SoftBreak)[0] == 'S' && inline_name(InlineKind::SoftBreak)[1] == 'o');
    assert(inline_name(InlineKind::LineBreak).len() == 9 && inline_name(InlineKind::LineBreak)[0] == 'L');
    assert(inline_name(InlineKind::Math).len() == 4 && inline_name(InlineKind::Math)[0] == 'M');
    assert(inline_name(InlineKind::RawInline).len() == 9 && inline_name(InlineKind::RawInline)[0] == 'R');
    assert(inline_name(InlineKind::Link).len() == 4 && inline_name(InlineKind::Link)[0] == 'L');
    assert(inline_name(InlineKind::Image).len() == 5 && inline_name(InlineKind::Image)[0] == 'I');
    assert(inline_name(InlineKind::Note).len() == 4 && inline_name(InlineKind::Note)[0] == 'N');
    assert(inline_name(InlineKind::Span).len() == 4 && inline_name(InlineKind::Span)[0] == 'S');
}

/// Each name of a Alignment is read back as the variant it names.
pub proof fn lemma_alignment_names(k: Alignment)
    ensures
        alignment_of(alignment_name(k)) == Some(k),
{
    broadcast use vstd::string::group_string_axioms;

    reveal_strlit("AlignLeft");
    reveal_strlit("AlignRight");
    reveal_strlit("AlignCenter");
    reveal_strlit("AlignDefault");
    assert(alignment_name(Alignment::AlignLeft).len() == 9);
    assert(alignment_name(Alignment::AlignRight).len() == 10);
    assert(alignment_name(Alignment::AlignCenter).len() == 11);
    assert(alignment_name(Alignment::AlignDefault).len() == 12);
}

/// Each name of a ListNumberStyle is read back as the variant it names.
pub proof fn lemma_style_names(k: ListNumberStyle)
    ensures
        style_of(style_name(k)) == Some(k),
{
    broadcast use vstd::string::group_string_axioms;

    reveal_strlit("DefaultStyle");
    reveal_strlit("Example");
    reveal_strlit("Decimal");
    reveal_strlit("LowerRoman");
    reveal_strlit("UpperRoman");
    reveal_strlit("LowerAlpha");
    reveal_strlit("UpperAlpha");
    assert(style_name(ListNumberStyle::DefaultStyle).len() == 12);
    assert(style_name(ListNumberStyle::Example).len() == 7 && style_name(ListNumberStyle::Example)[0] == 'E');
    assert(style_name(ListNumberStyle::Decimal).len() == 7 && style_name(ListNumberStyle::Decimal)[0] == 'D');
    assert(style_name(ListNumberStyle::LowerRoman).len() == 10 && style_name(ListNumberStyle::LowerRoman)[0] == 'L' && style_name(ListNumberStyle::LowerRoman)[5] == 'R');
    assert(style_name(ListNumberStyle::UpperRoman).len() == 10 && style_name(ListNumberStyle::UpperRoman)[0] == 'U' && style_name(ListNumberStyle::UpperRoman)[5] == 'R');
    assert(style_name(ListNumberStyle::LowerAlpha).len() == 10 && style_name(ListNumberStyle::LowerAlpha)[0] == 'L' && style_name(ListNumberStyle::LowerAlpha)[5] == 'A');
    assert(style_name(ListNumberStyle::UpperAlpha).len() == 10 && style_name(ListNumberStyle::UpperAlpha)[0] == 'U' && style_name(ListNumberStyle::UpperAlpha)[5] == 'A');
}

/// Each name of a ListNumberDelim is read back as the variant it names.
pub proof fn lemma_delim_names(k: ListNumberDelim)
    ensures
        delim_of(delim_name(k)) == Some(k),
{
    broadcast use vstd::string::group_string_axioms;

    reveal_strlit("DefaultDelim");
    reveal_strlit("Period");
    reveal_strlit("OneParen");
    reveal_strlit("TwoParens");
    assert(delim_name(ListNumberDelim::DefaultDelim).len() == 12);
    assert(delim_name(ListNumberDelim::Period).len() == 6);
    assert(delim_name(ListNumberDelim::OneParen).len() == 8);
    assert(delim_name(ListNumberDelim::TwoParens).len() == 9);
}

/// Each name of a QuoteType is read back as the variant it names.
pub proof fn lemma_quote_names(k: QuoteType)
    ensures
        quote_of(quote_name(k)) == Some(k),
{
    broadcast use vstd::string::group_string_axioms;

    reveal_strlit("SingleQuote");
    reveal_strlit("DoubleQuote");
    assert(quote_name(QuoteType::SingleQuote).len() == 11 && quote_name(QuoteType::SingleQuote)[0] == 'S');
    assert(quote_name(QuoteType::DoubleQuote).len() == 11 && quote_name(QuoteType::DoubleQuote)[0] == 'D');
}

/// Each name of a MathType is read back as the variant it names.
pub proof fn lemma_math_names(k: MathType)
    ensures
        math_of(math_name(k)) == Some(k),
{
    broadcast use vstd::string::group_string_axioms;

    reveal_strlit("DisplayMath");
    reveal_strlit("InlineMath");
    assert(math_name(MathType::DisplayMath).len() == 11);
    assert(math_name(MathType::InlineMath).len() == 10);
}

/// Each name of a CitationMode is read back as the variant it names.
pub proof fn lemma_mode_names(k: CitationMode)
    ensures
        mode_of(mode_name(k)) == Some(k),
{
    broadcast use vstd::string::group_string_axioms;

    reveal_strlit("AuthorInText");
    reveal_strlit("SuppressAuthor");
    reveal_strlit("NormalCitation");
    assert(mode_name(CitationMode::AuthorInText).len() == 12);
    assert(mode_name(CitationMode::SuppressAuthor).len() == 14 && mode_name(CitationMode::SuppressAuthor)[0] == 'S');
    assert(mode_name(CitationMode::NormalCitation).len() == 14 && mode_name(CitationMode::NormalCitation)[0] == 'N');
}

// ---------------------------------------------------------------- writing

/// `{"t": name, "c": payload}`
pub open spec fn tagged(name: Text, payload: J) -> J {
    J::Object(seq![("t"@, J::String(name)), ("c"@, payload)])
}

/// `{"t": name}`
pub open spec fn bare(name: Text) -> J {
    J::Object(seq![("t"@, J::String(name))])
}

pub open spec fn enc_texts(s: Seq<Text>) -> J {
    J::Array(s.map_values(|t: Text| J::String(t)))
}

pub open spec fn enc_pair(p: (Text, Text)) -> J {
    J::Array(seq![J::String(p.0), J::String(p.1)])
}

pub open spec fn enc_attr(a: AttrView) -> J {
    J::Array(seq![J::String(a.0), enc_texts(a.1), J::Array(a.2.map_values(|p: (Text, Text)| enc_pair(p)))])
}

pub open spec fn enc_target(t: TargetView) -> J {
    enc_pair(t)
}

pub open spec fn enc_col_width(w: ColWidth) -> J {
    match w {
        ColWidth::ColWidth(n) => tagged("ColWidth"@, J::Number(n)),
        ColWidth::ColWidthDefault => bare("ColWidthDefault"@),
    }
}

pub open spec fn enc_col_spec(c: ColSpec) -> J {
    J::Array(seq![bare(alignment_name(c.0)), enc_col_width(c.1)])
}

pub open spec fn enc_list_attributes(l: (i64, ListNumberStyle, ListNumberDelim)) -> J {
    J::Array(seq![J::Int(l.0), bare(style_name(l.1)), bare(delim_name(l.2))])
}

pub open spec fn enc_version(v: Seq<u32>) -> J {
    J::Array(v.map_values(|x: u32| J::Int(x as i64)))
}

pub open spec fn meta_kind(m: MetaValueView) -> MetaKind {
    match m {
        MetaValueView::MetaMap(_) => MetaKind::MetaMap,
        MetaValueView::MetaList(_) => MetaKind::MetaList,
        MetaValueView::MetaBool(_) => MetaKind::MetaBool,
        MetaValueView::MetaString(_) => MetaKind::MetaString,
        MetaValueView::MetaInlines(_) => MetaKind::MetaInlines,
        MetaValueView::MetaBlocks(_) => MetaKind::MetaBlocks,
    }
}

pub open spec fn block_kind(b: BlockView) -> BlockKind {
    match b {
        BlockView::Plain(..) => BlockKind::Plain,
        BlockView::Para(..) => BlockKind::Para,
        BlockView::LineBlock(..) => BlockKind::LineBlock,
        BlockView::CodeBlock(..) => BlockKind::CodeBlock,
        BlockView::RawBlock(..) => BlockKind::RawBlock,
        BlockView::BlockQuote(..) => BlockKind::BlockQuote,
        BlockView::OrderedList(..) => BlockKind::OrderedList,
        BlockView::BulletList(..) => BlockKind::BulletList,
        BlockView::DefinitionList(..) => BlockKind::DefinitionList,
        BlockView::Figure(..) => BlockKind::Figure,
        BlockView::Header(..) => BlockKind::Header,
        BlockView::HorizontalRule => BlockKind::HorizontalRule,
        BlockView::Table(..) => BlockKind::Table,
        BlockView::Div(..) => BlockKind::Div,
        BlockView::Null => BlockKind::Null,
    }
}

pub open spec fn inline_kind(i: InlineView) -> InlineKind {
    match i {
        InlineView::Str(..) => InlineKind::Str,
        InlineView::Emph(..) => InlineKind::Emph,
        InlineView::Underline(..) => InlineKind::Underline,
        InlineView::Strong(..) => InlineKind::Strong,
        InlineView::Strikeout(..) => InlineKind::Strikeout,
        InlineView::Superscript(..) => InlineKind::Superscript,
        InlineView::Subscript(..) => InlineKind::Subscript,
        InlineView::SmallCaps(..) => InlineKind::SmallCaps,
        InlineView::Quoted(..) => InlineKind::Quoted,
        InlineView::Cite(..) => InlineKind::Cite,
        InlineView::Code(..) => InlineKind::Code,
        InlineView::Space => InlineKind::Space,
        InlineView::SoftBreak => InlineKind::SoftBreak,
        InlineView::LineBreak => InlineKind::LineBreak,
        InlineView::Math(..) => InlineKind::Math,
        InlineView::RawInline(..) => InlineKind::RawInline,
        InlineView::Link(..) => InlineKind::Link,
        InlineView::Image(..) => InlineKind::Image,
        InlineView::Note(..) => InlineKind::Note,
        InlineView::Span(..) => InlineKind::Span,
    }
}

/// The variants that are written without a payload.
pub open spec fn block_is_unit(k: BlockKind) -> bool {
    k == BlockKind::HorizontalRule || k == BlockKind::Null
}

pub open spec fn inline_is_unit(k: InlineKind) -> bool {
    k == InlineKind::Space || k == InlineKind::SoftBreak || k == InlineKind::LineBreak
}

pub open spec fn enc_pandoc(d: PandocView) -> J {
    J::Object(
        seq![
            ("pandoc-api-version"@, enc_version(d.version)),
            ("meta"@, enc_meta(d.meta)),
            ("blocks"@, enc_blocks(d.blocks)),
        ],
    )
}

pub open spec fn enc_meta(m: MetaView) -> J
    decreases m, 0int,
{
    J::Object(
        Seq::new(
            m.len(),
            |k: int|
                if 0 <= k < m.len() {
                    (m[k].0, enc_meta_value(m[k].1))
                } else {
                    arbitrary()
                },
        ),
    )
}

pub open spec fn enc_meta_value(m: MetaValueView) -> J
    decreases m, 0int,
{
    let name = meta_name(meta_kind(m));
    match m {
        MetaValueView::MetaMap(c) => tagged(name, enc_meta(c)),
        MetaValueView::MetaList(c) => tagged(name, enc_meta_values(c)),
        MetaValueView::MetaBool(b) => tagged(name, J::Bool(b)),
        MetaValueView::MetaString(s) => tagged(name, J::String(s)),
        MetaValueView::MetaInlines(c) => tagged(name, enc_inlines(c)),
        MetaValueView::MetaBlocks(c) => tagged(name, enc_blocks(c)),
    }
}

pub open spec fn enc_meta_values(s: Seq<MetaValueView>) -> J
    decreases s, 0int,
{
    J::Array(
        Seq::new(
            s.len(),
            |k: int|
                if 0 <= k < s.len() {
                    enc_meta_value(s[k])
                } else {
                    arbitrary()
                },
        ),
    )
}

pub open spec fn enc_inlines(s: Seq<InlineView>) -> J
    decreases s, 0int,
{
    J::Array(
        Seq::new(
            s.len(),
            |k: int|
                if 0 <= k < s.len() {
                    enc_inline(s[k])
                } else {
                    arbitrary()
                },
        ),
    )
}

pub open spec fn enc_blocks(s: Seq<BlockView>) -> J
    decreases s, 0int,
{
    J::Array(
        Seq::new(
            s.len(),
            |k: int|
                if 0 <= k < s.len() {
                    enc_block(s[k])
                } else {
                    arbitrary()
                },
        ),
    )
}

pub open spec fn enc_inline_lists(s: Seq<Seq<InlineView>>) -> J
    decreases s, 0int,
{
    J::Array(
        Seq::new(
            s.len(),
            |k: int|
                if 0 <= k < s.len() {
                    enc_inlines(s[k])
                } else {
                    arbitrary()
                },
        ),
    )
}

pub open spec fn enc_block_lists(s: Seq<Seq<BlockView>>) -> J
    decreases s, 0int,
{
    J::Array(
        Seq::new(
            s.len(),
            |k: int|
                if 0 <= k < s.len() {
                    enc_blocks(s[k])
                } else {
                    arbitrary()
                },
        ),
    )
}

pub open spec fn enc_definitions(s: Seq<(Seq<InlineView>, Seq<Seq<BlockView>>)>) -> J
    decreases s, 0int,
{
    J::Array(
        Seq::new(
            s.len(),
            |k: int|
                if 0 <= k < s.len() {
                    J::Array(seq![enc_inlines(s[k].0), enc_block_lists(s[k].1)])
                } else {
                    arbitrary()
                },
        ),
    )
}

pub open spec fn enc_citation(c: CitationView) -> J
    decreases c, 0int,
{
    J::Object(
        seq![
            ("citationId"@, J::String(c.id)),
            ("citationPrefix"@, enc_inlines(c.prefix)),
            ("citationSuffix"@, enc_inlines(c.suffix)),
            ("citationMode"@, bare(mode_name(c.mode))),
            ("citationNoteNum"@, J::Int(c.note_num)),
            ("citationHash"@, J::Int(c.hash)),
        ],
    )
}

pub open spec fn enc_citations(s: Seq<CitationView>) -> J
    decreases s, 0int,
{
    J::Array(
        Seq::new(
            s.len(),
            |k: int|
                if 0 <= k < s.len() {
                    enc_citation(s[k])
                } else {
                    arbitrary()
                },
        ),
    )
}

pub open spec fn enc_caption(c: CaptionView) -> J
    decreases c, 0int,
{
    J::Array(
        seq![
            match c.0 {
                Some(s) => enc_inlines(s),
                None => J::Null,
            },
            enc_blocks(c.1),
        ],
    )
}

pub open spec fn enc_cells(s: Seq<CellView>) -> J
    decreases s, 0int,
{
    J::Array(
        Seq::new(
            s.len(),
            |k: int|
                if 0 <= k < s.len() {
                    J::Array(
                        seq![
                            enc_attr(s[k].0),
                            bare(alignment_name(s[k].1)),
                            J::Int(s[k].2),
                            J::Int(s[k].3),
                            enc_blocks(s[k].4),
                        ],
                    )
                } else {
                    arbitrary()
                },
        ),
    )
}

pub open spec fn enc_rows(s: Seq<RowView>) -> J
    decreases s, 0int,
{
    J::Array(
        Seq::new(
            s.len(),
            |k: int|
                if 0 <= k < s.len() {
                    J::Array(seq![enc_attr(s[k].0), enc_cells(s[k].1)])
                } else {
                    arbitrary()
                },
        ),
    )
}

pub open spec fn enc_bodies(s: Seq<TableBodyView>) -> J
    decreases s, 0int,
{
    J::Array(
        Seq::new(
            s.len(),
            |k: int|
                if 0 <= k < s.len() {
                    J::Array(
                        seq![
                            enc_attr(s[k].0),
                            J::Int(s[k].1),
                            enc_rows(s[k].2),
                            enc_rows(s[k].3),
                        ],
                    )
                } else {
                    arbitrary()
                },
        ),
    )
}

pub open spec fn enc_block(b: BlockView) -> J
    decreases b, 1int,
{
    let k = block_kind(b);
    if block_is_unit(k) {
        bare(block_name(k))
    } else {
        tagged(block_name(k), block_payload(b))
    }
}

/// The payload of a block that has one: its fields, as an array where there are several.
pub open spec fn block_payload(b: BlockView) -> J
    decreases b, 0int,
{
    match b {
        BlockView::Plain(c) => enc_inlines(c),
        BlockView::Para(c) => enc_inlines(c),
        BlockView::LineBlock(c) => enc_inline_lists(c),
        BlockView::CodeBlock(a, s) => J::Array(seq![enc_attr(a), J::String(s)]),
        BlockView::RawBlock(f, s) => J::Array(seq![J::String(f), J::String(s)]),
        BlockView::BlockQuote(c) => enc_blocks(c),
        BlockView::OrderedList(l, c) => J::Array(seq![enc_list_attributes(l), enc_block_lists(c)]),
        BlockView::BulletList(c) => enc_block_lists(c),
        BlockView::DefinitionList(c) => enc_definitions(c),
        BlockView::Figure(a, cap, c) => J::Array(seq![enc_attr(a), enc_caption(cap), enc_blocks(c)]),
        BlockView::Header(l, a, c) => J::Array(seq![J::Int(l), enc_attr(a), enc_inlines(c)]),
        BlockView::HorizontalRule => J::Null,
        BlockView::Table(a, cap, cols, head, bodies, foot) => J::Array(
                seq![
                    enc_attr(a),
                    enc_caption(cap),
                    J::Array(cols.map_values(|c: ColSpec| enc_col_spec(c))),
                    J::Array(seq![enc_attr(head.0), enc_rows(head.1)]),
                    enc_bodies(bodies),
                    J::Array(seq![enc_attr(foot.0), enc_rows(foot.1)]),
                ],
            ),
        BlockView::Div(a, c) => J::Array(seq![enc_attr(a), enc_blocks(c)]),
        BlockView::Null => J::Null,
    }
}

pub open spec fn enc_inline(i: InlineView) -> J
    decreases i, 1int,
{
    let k = inline_kind(i);
    if inline_is_unit(k) {
        bare(inline_name(k))
    } else {
        tagged(inline_name(k), inline_payload(i))
    }
}

/// The payload of an inline that has one.
pub open spec fn inline_payload(i: InlineView) -> J
    decreases i, 0int,
{
    match i {
        InlineView::Str(s) => J::String(s),
        InlineView::Emph(c) => enc_inlines(c),
        InlineView::Underline(c) => enc_inlines(c),
        InlineView::Strong(c) => enc_inlines(c),
        InlineView::Strikeout(c) => enc_inlines(c),
        InlineView::Superscript(c) => enc_inlines(c),
        InlineView::Subscript(c) => enc_inlines(c),
        InlineView::SmallCaps(c) => enc_inlines(c),
        InlineView::Quoted(q, c) => J::Array(seq![bare(quote_name(q)), enc_inlines(c)]),
        InlineView::Cite(cs, c) => J::Array(seq![enc_citations(cs), enc_inlines(c)]),
        InlineView::Code(a, s) => J::Array(seq![enc_attr(a), J::String(s)]),
        InlineView::Space => J::Null,
        InlineView::SoftBreak => J::Null,
        InlineView::LineBreak => J::Null,
        InlineView::Math(m, s) => J::Array(seq![bare(math_name(m)), J::String(s)]),
        InlineView::RawInline(f, s) => J::Array(seq![J::String(f), J::String(s)]),
        InlineView::Link(a, c, t) => J::Array(seq![enc_attr(a), enc_inlines(c), enc_target(t)]),
        InlineView::Image(a, c, t) => J::Array(seq![enc_attr(a), enc_inlines(c), enc_target(t)]),
        InlineView::Note(c) => enc_blocks(c),
        InlineView::Span(a, c) => J::Array(seq![enc_attr(a), enc_inlines(c)]),
    }
}

// ---------------------------------------------------------------- reading

/// The value under `key` in an object's entries: the first entry with that key.
pub open spec fn lookup(e: Seq<(Text, J)>, key: Text) -> Option<J>
    decreases e.len(),
{
    if e.len() == 0 {
        None
    } else if e[0].0 == key {
        Some(e[0].1)
    } else {
        lookup(e.drop_first(), key)
    }
}

pub proof fn lemma_lookup_smaller(e: Seq<(Text, J)>, key: Text)
    ensures
        lookup(e, key) matches Some(v) ==> decreases_to!(e => v),
    decreases e.len(),
{
    if e.len() > 0 {
        if e[0].0 == key {
            assert(decreases_to!(e => e[0]));
        } else {
            lemma_lookup_smaller(e.drop_first(), key);
            assert(decreases_to!(e => e.drop_first()));
        }
    }
}

pub open spec fn at<T>(r: Result<T, E>, k: int) -> Result<T, E> {
    within(r, PathStepView::Index(k))
}

pub open spec fn at_key<T>(r: Result<T, E>, key: Text) -> Result<T, E> {
    within(r, PathStepView::Key(key))
}

pub open spec fn unknown<T>(category: Category, tag: Text) -> Result<T, E> {
    Err(DecodeErrorView::UnknownDiscriminator { category, tag, path: Seq::empty() })
}

/// Both results, or the first failure.
pub open spec fn both<A, B>(a: Result<A, E>, b: Result<B, E>) -> Result<(A, B), E> {
    match a {
        Err(e) => Err(e),
        Ok(x) => match b {
            Err(e) => Err(e),
            Ok(y) => Ok((x, y)),
        },
    }
}

pub open spec fn dec_text(j: J, category: Category) -> Result<Text, E> {
    match j {
        J::String(s) => Ok(s),
        _ => mismatch(category, Expected::String),
    }
}

pub open spec fn dec_int(j: J, category: Category) -> Result<i64, E> {
    match j {
        J::Int(i) => Ok(i),
        _ => mismatch(category, Expected::Integer),
    }
}

/// The items of `xs` from index `i` on, each decoded, or the first failure.
pub open spec fn dec_text_items(xs: Seq<J>, category: Category, i: int) -> Result<Seq<Text>, E>
    decreases xs.len() - i,
{
    if i < 0 || i >= xs.len() {
        Ok(Seq::empty())
    } else {
        match at(dec_text(xs[i], category), i) {
            Err(e) => Err(e),
            Ok(x) => match dec_text_items(xs, category, i + 1) {
                Err(e) => Err(e),
                Ok(rest) => Ok(seq![x] + rest),
            },
        }
    }
}

pub open spec fn dec_texts(j: J, category: Category) -> Result<Seq<Text>, E> {
    match j {
        J::Array(xs) => dec_text_items(xs, category, 0),
        _ => mismatch(category, Expected::List),
    }
}

pub open spec fn dec_pair(j: J, category: Category) -> Result<(Text, Text), E> {
    match j {
        J::Array(xs) if xs.len() == 2 => both(
            at(dec_text(xs[0], category), 0),
            at(dec_text(xs[1], category), 1),
        ),
        _ => mismatch(category, Expected::Tuple(2)),
    }
}

/// The items of `xs` from index `i` on, each decoded, or the first failure.
pub open spec fn dec_pair_items(xs: Seq<J>, category: Category, i: int) -> Result<Seq<(Text, Text)>, E>
    decreases xs.len() - i,
{
    if i < 0 || i >= xs.len() {
        Ok(Seq::empty())
    } else {
        match at(dec_pair(xs[i], category), i) {
            Err(e) => Err(e),
            Ok(x) => match dec_pair_items(xs, category, i + 1) {
                Err(e) => Err(e),
                Ok(rest) => Ok(seq![x] + rest),
            },
        }
    }
}

pub open spec fn dec_pairs(j: J, category: Category) -> Result<Seq<(Text, Text)>, E> {
    match j {
        J::Array(xs) => dec_pair_items(xs, category, 0),
        _ => mismatch(category, Expected::List),
    }
}

pub open spec fn dec_attr(j: J) -> Result<AttrView, E> {
    match j {
        J::Array(xs) if xs.len() == 3 => match both(
            at(dec_text(xs[0], Category::Attr), 0),
            both(at(dec_texts(xs[1], Category::Attr), 1), at(dec_pairs(xs[2], Category::Attr), 2)),
        ) {
            Ok((a, (b, c))) => Ok((a, b, c)),
            Err(e) => Err(e),
        },
        _ => mismatch(Category::Attr, Expected::Tuple(3)),
    }
}

/// The string under "t" of a tagged object's entries.
pub open spec fn tag_in(e: Seq<(Text, J)>) -> Option<Text> {
    match lookup(e, "t"@) {
        Some(J::String(t)) => Some(t),
        _ => None,
    }
}

pub open spec fn dec_tag(j: J, category: Category) -> Result<Text, E> {
    match j {
        J::Object(e) => match tag_in(e) {
            Some(t) => Ok(t),
            None => mismatch(category, Expected::Tagged),
        },
        _ => mismatch(category, Expected::Tagged),
    }
}

pub open spec fn dec_alignment(j: J) -> Result<Alignment, E> {
    match dec_tag(j, Category::Alignment) {
        Err(e) => Err(e),
        Ok(t) => match alignment_of(t) {
            Some(a) => Ok(a),
            None => unknown(Category::Alignment, t),
        },
    }
}

pub open spec fn dec_style(j: J) -> Result<ListNumberStyle, E> {
    match dec_tag(j, Category::ListNumberStyle) {
        Err(e) => Err(e),
        Ok(t) => match style_of(t) {
            Some(a) => Ok(a),
            None => unknown(Category::ListNumberStyle, t),
        },
    }
}

pub open spec fn dec_delim(j: J) -> Result<ListNumberDelim, E> {
    match dec_tag(j, Category::ListNumberDelim) {
        Err(e) => Err(e),
        Ok(t) => match delim_of(t) {
            Some(a) => Ok(a),
            None => unknown(Category::ListNumberDelim, t),
        },
    }
}

pub open spec fn dec_quote(j: J) -> Result<QuoteType, E> {
    match dec_tag(j, Category::QuoteType) {
        Err(e) => Err(e),
        Ok(t) => match quote_of(t) {
            Some(a) => Ok(a),
            None => unknown(Category::QuoteType, t),
        },
    }
}

pub open spec fn dec_math(j: J) -> Result<MathType, E> {
    match dec_tag(j, Category::MathType) {
        Err(e) => Err(e),
        Ok(t) => match math_of(t) {
            Some(a) => Ok(a),
            None => unknown(Category::MathType, t),
        },
    }
}

pub open spec fn dec_mode(j: J) -> Result<CitationMode, E> {
    match dec_tag(j, Category::CitationMode) {
        Err(e) => Err(e),
        Ok(t) => match mode_of(t) {
            Some(a) => Ok(a),
            None => unknown(Category::CitationMode, t),
        },
    }
}

pub open spec fn dec_col_width(j: J) -> Result<ColWidth, E> {
    match j {
        J::Object(e) => match tag_in(e) {
            None => mismatch(Category::ColWidth, Expected::Tagged),
            Some(t) => if t == "ColWidth"@ {
                match lookup(e, "c"@) {
                    Some(J::Number(n)) => Ok(ColWidth::ColWidth(n)),
                    Some(J::Int(i)) => Ok(ColWidth::ColWidth(crate::bridge::number_of_int(i))),
                    Some(_) => at_key(mismatch(Category::ColWidth, Expected::Number), "c"@),
                    None => mismatch(Category::ColWidth, Expected::Payload),
                }
            } else if t == "ColWidthDefault"@ {
                Ok(ColWidth::ColWidthDefault)
            } else {
                unknown(Category::ColWidth, t)
            },
        },
        _ => mismatch(Category::ColWidth, Expected::Tagged),
    }
}

pub open spec fn dec_col_spec(j: J) -> Result<ColSpec, E> {
    match j {
        J::Array(xs) if xs.len() == 2 => both(at(dec_alignment(xs[0]), 0), at(dec_col_width(xs[1]), 1)),
        _ => mismatch(Category::ColSpec, Expected::Tuple(2)),
    }
}

/// The items of `xs` from index `i` on, each decoded, or the first failure.
pub open spec fn dec_col_spec_items(xs: Seq<J>, i: int) -> Result<Seq<ColSpec>, E>
    decreases xs.len() - i,
{
    if i < 0 || i >= xs.len() {
        Ok(Seq::empty())
    } else {
        match at(dec_col_spec(xs[i]), i) {
            Err(e) => Err(e),
            Ok(x) => match dec_col_spec_items(xs, i + 1) {
                Err(e) => Err(e),
                Ok(rest) => Ok(seq![x] + rest),
            },
        }
    }
}

pub open spec fn dec_col_specs(j: J) -> Result<Seq<ColSpec>, E> {
    match j {
        J::Array(xs) => dec_col_spec_items(xs, 0),
        _ => mismatch(Category::ColSpec, Expected::List),
    }
}

pub open spec fn dec_list_attributes(j: J) -> Result<(i64, ListNumberStyle, ListNumberDelim), E> {
    match j {
        J::Array(xs) if xs.len() == 3 => match both(
            at(dec_int(xs[0], Category::ListAttributes), 0),
            both(at(dec_style(xs[1]), 1), at(dec_delim(xs[2]), 2)),
        ) {
            Ok((a, (b, c))) => Ok((a, b, c)),
            Err(e) => Err(e),
        },
        _ => mismatch(Category::ListAttributes, Expected::Tuple(3)),
    }
}

pub open spec fn dec_version_number(j: J) -> Result<u32, E> {
    match j {
        J::Int(i) if 0 <= i <= 0xffff_ffff => Ok(i as u32),
        _ => mismatch(Category::Version, Expected::Unsigned),
    }
}

/// The items of `xs` from index `i` on, each decoded, or the first failure.
pub open spec fn dec_version_items(xs: Seq<J>, i: int) -> Result<Seq<u32>, E>
    decreases xs.len() - i,
{
    if i < 0 || i >= xs.len() {
        Ok(Seq::empty())
    } else {
        match at(dec_version_number(xs[i]), i) {
            Err(e) => Err(e),
            Ok(x) => match dec_version_items(xs, i + 1) {
                Err(e) => Err(e),
                Ok(rest) => Ok(seq![x] + rest),
            },
        }
    }
}

/// The major and minor version of a document, where its version field has them.
pub open spec fn version_of(j: J) -> Option<(i64, i64)> {
    match j {
        J::Object(e) => match lookup(e, "pandoc-api-version"@) {
            Some(J::Array(xs)) => if xs.len() >= 2 {
                match (xs[0], xs[1]) {
                    (J::Int(a), J::Int(b)) => Some((a, b)),
                    _ => None,
                }
            } else {
                None
            },
            _ => None,
        },
        _ => None,
    }
}

pub open spec fn version_supported(major: i64, minor: i64) -> bool {
    major == REQUIRED_MAJOR && minor >= REQUIRED_MINOR
}

pub open spec fn dec_pandoc(j: J) -> Result<PandocView, E> {
    match version_of(j) {
        None => Err(DecodeErrorView::MissingVersionField),
        Some((major, minor)) => if !version_supported(major, minor) {
            Err(
                DecodeErrorView::UnsupportedVersion {
                    required: (REQUIRED_MAJOR, REQUIRED_MINOR),
                    found: (major, minor),
                },
            )
        } else {
            match j {
                J::Object(e) => {
                    let version = match lookup(e, "pandoc-api-version"@) {
                        Some(J::Array(xs)) => at_key(dec_version_items(xs, 0), "pandoc-api-version"@),
                        _ => mismatch(Category::Document, Expected::List),
                    };
                    let meta = match lookup(e, "meta"@) {
                        Some(m) => at_key(dec_meta(m), "meta"@),
                        None => at_key(mismatch(Category::Document, Expected::Field), "meta"@),
                    };
                    let blocks = match lookup(e, "blocks"@) {
                        Some(b) => at_key(dec_blocks(b), "blocks"@),
                        None => at_key(mismatch(Category::Document, Expected::Field), "blocks"@),
                    };
                    match both(version, both(meta, blocks)) {
                        Ok((v, (m, b))) => Ok(PandocView { meta: m, blocks: b, version: v }),
                        Err(e) => Err(e),
                    }
                },
                _ => mismatch(Category::Document, Expected::Object),
            }
        },
    }
}

pub open spec fn dec_meta(j: J) -> Result<MetaView, E>
    decreases j, 0int,
{
    match j {
        J::Object(e) => match dec_meta_entries(e, 0) {
            Ok(m) => Ok(sort_entries(m)),
            Err(x) => Err(x),
        },
        _ => mismatch(Category::Meta, Expected::Object),
    }
}

/// The entries of `e` from index `i` on, each value decoded, or the first failure.
pub open spec fn dec_meta_entries(e: Seq<(Text, J)>, i: int) -> Result<MetaView, E>
    decreases e, e.len() - i,
{
    if i < 0 || i >= e.len() {
        Ok(Seq::empty())
    } else {
        match at_key(dec_meta_value(e[i].1), e[i].0) {
            Err(err) => Err(err),
            Ok(v) => match dec_meta_entries(e, i + 1) {
                Err(err) => Err(err),
                Ok(rest) => Ok(seq![(e[i].0, v)] + rest),
            },
        }
    }
}

pub open spec fn dec_meta_value(j: J) -> Result<MetaValueView, E>
    decreases j, 0int,
{
    match j {
        J::Object(e) => match tag_in(e) {
            None => mismatch(Category::MetaValue, Expected::Tagged),
            Some(t) => match meta_kind_of(t) {
                None => unknown(Category::MetaValue, t),
                Some(k) => match lookup(e, "c"@) {
                    None => mismatch(Category::MetaValue, Expected::Payload),
                    Some(c) => {
                        proof {
                            lemma_lookup_smaller(e, "c"@);
                        }
                        at_key(dec_meta_with(k, c), "c"@)
                    },
                },
            },
        },
        _ => mismatch(Category::MetaValue, Expected::Tagged),
    }
}

pub open spec fn dec_meta_with(k: MetaKind, c: J) -> Result<MetaValueView, E>
    decreases c, 1int,
{
    match k {
        MetaKind::MetaMap => match dec_meta(c) {
            Ok(m) => Ok(MetaValueView::MetaMap(m)),
            Err(e) => Err(e),
        },
        MetaKind::MetaList => match dec_meta_values(c) {
            Ok(m) => Ok(MetaValueView::MetaList(m)),
            Err(e) => Err(e),
        },
        MetaKind::MetaBool => match c {
            J::Bool(b) => Ok(MetaValueView::MetaBool(b)),
            _ => mismatch(Category::MetaValue, Expected::Bool),
        },
        MetaKind::MetaString => match dec_text(c, Category::MetaValue) {
            Ok(s) => Ok(MetaValueView::MetaString(s)),
            Err(e) => Err(e),
        },
        MetaKind::MetaInlines => match dec_inlines(c) {
            Ok(s) => Ok(MetaValueView::MetaInlines(s)),
            Err(e) => Err(e),
        },
        MetaKind::MetaBlocks => match dec_blocks(c) {
            Ok(s) => Ok(MetaValueView::MetaBlocks(s)),
            Err(e) => Err(e),
        },
    }
}

pub open spec fn dec_meta_values(j: J) -> Result<Seq<MetaValueView>, E>
    decreases j, 0int,
{
    match j {
        J::Array(xs) => dec_meta_value_items(xs, 0),
        _ => mismatch(Category::MetaValue, Expected::List),
    }
}

/// The items of `xs` from index `i` on, each decoded, or the first failure.
pub open spec fn dec_meta_value_items(xs: Seq<J>, i: int) -> Result<Seq<MetaValueView>, E>
    decreases xs, xs.len() - i,
{
    if i < 0 || i >= xs.len() {
        Ok(Seq::empty())
    } else {
        match at(dec_meta_value(xs[i]), i) {
            Err(e) => Err(e),
            Ok(x) => match dec_meta_value_items(xs, i + 1) {
                Err(e) => Err(e),
                Ok(rest) => Ok(seq![x] + rest),
            },
        }
    }
}

pub open spec fn dec_inlines(j: J) -> Result<Seq<InlineView>, E>
    decreases j, 0int,
{
    match j {
        J::Array(xs) => dec_inline_items(xs, 0),
        _ => mismatch(Category::Inline, Expected::List),
    }
}

/// The items of `xs` from index `i` on, each decoded, or the first failure.
pub open spec fn dec_inline_items(xs: Seq<J>, i: int) -> Result<Seq<InlineView>, E>
    decreases xs, xs.len() - i,
{
    if i < 0 || i >= xs.len() {
        Ok(Seq::empty())
    } else {
        match at(dec_inline(xs[i]), i) {
            Err(e) => Err(e),
            Ok(x) => match dec_inline_items(xs, i + 1) {
                Err(e) => Err(e),
                Ok(rest) => Ok(seq![x] + rest),
            },
        }
    }
}

pub open spec fn dec_blocks(j: J) -> Result<Seq<BlockView>, E>
    decreases j, 0int,
{
    match j {
        J::Array(xs) => dec_block_items(xs, 0),
        _ => mismatch(Category::Block, Expected::List),
    }
}

/// The items of `xs` from index `i` on, each decoded, or the first failure.
pub open spec fn dec_block_items(xs: Seq<J>, i: int) -> Result<Seq<BlockView>, E>
    decreases xs, xs.len() - i,
{
    if i < 0 || i >= xs.len() {
        Ok(Seq::empty())
    } else {
        match at(dec_block(xs[i]), i) {
            Err(e) => Err(e),
            Ok(x) => match dec_block_items(xs, i + 1) {
                Err(e) => Err(e),
                Ok(rest) => Ok(seq![x] + rest),
            },
        }
    }
}

pub open spec fn dec_inline_lists(j: J) -> Result<Seq<Seq<InlineView>>, E>
    decreases j, 0int,
{
    match j {
        J::Array(xs) => dec_inline_list_items(xs, 0),
        _ => mismatch(Category::Block, Expected::List),
    }
}

/// The items of `xs` from index `i` on, each decoded, or the first failure.
pub open spec fn dec_inline_list_items(xs: Seq<J>, i: int) -> Result<Seq<Seq<InlineView>>, E>
    decreases xs, xs.len() - i,
{
    if i < 0 || i >= xs.len() {
        Ok(Seq::empty())
    } else {
        match at(dec_inlines(xs[i]), i) {
            Err(e) => Err(e),
            Ok(x) => match dec_inline_list_items(xs, i + 1) {
                Err(e) => Err(e),
                Ok(rest) => Ok(seq![x] + rest),
            },
        }
    }
}

pub open spec fn dec_block_lists(j: J) -> Result<Seq<Seq<BlockView>>, E>
    decreases j, 0int,
{
    match j {
        J::Array(xs) => dec_block_list_items(xs, 0),
        _ => mismatch(Category::Block, Expected::List),
    }
}

/// The items of `xs` from index `i` on, each decoded, or the first failure.
pub open spec fn dec_block_list_items(xs: Seq<J>, i: int) -> Result<Seq<Seq<BlockView>>, E>
    decreases xs, xs.len() - i,
{
    if i < 0 || i >= xs.len() {
        Ok(Seq::empty())
    } else {
        match at(dec_blocks(xs[i]), i) {
            Err(e) => Err(e),
            Ok(x) => match dec_block_list_items(xs, i + 1) {
                Err(e) => Err(e),
                Ok(rest) => Ok(seq![x] + rest),
            },
        }
    }
}

pub open spec fn dec_definition(j: J) -> Result<(Seq<InlineView>, Seq<Seq<BlockView>>), E>
    decreases j, 0int,
{
    match j {
        J::Array(xs) if xs.len() == 2 => both(at(dec_inlines(xs[0]), 0), at(dec_block_lists(xs[1]), 1)),
        _ => mismatch(Category::Block, Expected::Tuple(2)),
    }
}

/// The items of `xs` from index `i` on, each decoded, or the first failure.
pub open spec fn dec_definition_items(xs: Seq<J>, i: int) -> Result<Seq<(Seq<InlineView>, Seq<Seq<BlockView>>)>, E>
    decreases xs, xs.len() - i,
{
    if i < 0 || i >= xs.len() {
        Ok(Seq::empty())
    } else {
        match at(dec_definition(xs[i]), i) {
            Err(e) => Err(e),
            Ok(x) => match dec_definition_items(xs, i + 1) {
                Err(e) => Err(e),
                Ok(rest) => Ok(seq![x] + rest),
            },
        }
    }
}

pub open spec fn dec_definitions(j: J) -> Result<Seq<(Seq<InlineView>, Seq<Seq<BlockView>>)>, E>
    decreases j, 0int,
{
    match j {
        J::Array(xs) => dec_definition_items(xs, 0),
        _ => mismatch(Category::Block, Expected::List),
    }
}

/// A citation: an object with its six fields under their names, read in order.
pub open spec fn dec_citation(j: J) -> Result<CitationView, E>
    decreases j, 0int,
{
    match j {
        J::Object(e) => {
            proof {
                lemma_lookup_smaller(e, "citationPrefix"@);
                lemma_lookup_smaller(e, "citationSuffix"@);
            }
            let id = match lookup(e, "citationId"@) {
                Some(v) => at_key(dec_text(v, Category::Citation), "citationId"@),
                None => at_key(mismatch(Category::Citation, Expected::Field), "citationId"@),
            };
            let prefix = match lookup(e, "citationPrefix"@) {
                Some(v) => at_key(dec_inlines(v), "citationPrefix"@),
                None => at_key(mismatch(Category::Citation, Expected::Field), "citationPrefix"@),
            };
            let suffix = match lookup(e, "citationSuffix"@) {
                Some(v) => at_key(dec_inlines(v), "citationSuffix"@),
                None => at_key(mismatch(Category::Citation, Expected::Field), "citationSuffix"@),
            };
            let mode = match lookup(e, "citationMode"@) {
                Some(v) => at_key(dec_mode(v), "citationMode"@),
                None => at_key(mismatch(Category::Citation, Expected::Field), "citationMode"@),
            };
            let note_num = match lookup(e, "citationNoteNum"@) {
                Some(v) => at_key(dec_int(v, Category::Citation), "citationNoteNum"@),
                None => at_key(mismatch(Category::Citation, Expected::Field), "citationNoteNum"@),
            };
            let hash = match lookup(e, "citationHash"@) {
                Some(v) => at_key(dec_int(v, Category::Citation), "citationHash"@),
                None => at_key(mismatch(Category::Citation, Expected::Field), "citationHash"@),
            };
            match both(id, both(prefix, both(suffix, both(mode, both(note_num, hash))))) {
                Ok((id, (prefix, (suffix, (mode, (note_num, hash)))))) => Ok(
                    CitationView { id, prefix, suffix, mode, note_num, hash },
                ),
                Err(e) => Err(e),
            }
        },
        _ => mismatch(Category::Citation, Expected::Object),
    }
}

/// The items of `xs` from index `i` on, each decoded, or the first failure.
pub open spec fn dec_citation_items(xs: Seq<J>, i: int) -> Result<Seq<CitationView>, E>
    decreases xs, xs.len() - i,
{
    if i < 0 || i >= xs.len() {
        Ok(Seq::empty())
    } else {
        match at(dec_citation(xs[i]), i) {
            Err(e) => Err(e),
            Ok(x) => match dec_citation_items(xs, i + 1) {
                Err(e) => Err(e),
                Ok(rest) => Ok(seq![x] + rest),
            },
        }
    }
}

pub open spec fn dec_citations(j: J) -> Result<Seq<CitationView>, E>
    decreases j, 0int,
{
    match j {
        J::Array(xs) => dec_citation_items(xs, 0),
        _ => mismatch(Category::Citation, Expected::List),
    }
}

pub open spec fn dec_caption(j: J) -> Result<CaptionView, E>
    decreases j, 0int,
{
    match j {
        J::Array(xs) if xs.len() == 2 => both(
            at(
                match xs[0] {
                    J::Null => Ok(None),
                    J::Array(_) => match dec_inlines(xs[0]) {
                        Ok(s) => Ok(Some(s)),
                        Err(e) => Err(e),
                    },
                    _ => mismatch(Category::Caption, Expected::ListOrNull),
                },
                0,
            ),
            at(dec_blocks(xs[1]), 1),
        ),
        _ => mismatch(Category::Caption, Expected::Tuple(2)),
    }
}

pub open spec fn dec_cell(j: J) -> Result<CellView, E>
    decreases j, 0int,
{
    match j {
        J::Array(xs) if xs.len() == 5 => match both(
            at(dec_attr(xs[0]), 0),
            both(
                at(dec_alignment(xs[1]), 1),
                both(
                    at(dec_int(xs[2], Category::Cell), 2),
                    both(at(dec_int(xs[3], Category::Cell), 3), at(dec_blocks(xs[4]), 4)),
                ),
            ),
        ) {
            Ok((a, (al, (rs, (cs, b))))) => Ok((a, al, rs, cs, b)),
            Err(e) => Err(e),
        },
        _ => mismatch(Category::Cell, Expected::Tuple(5)),
    }
}

/// The items of `xs` from index `i` on, each decoded, or the first failure.
pub open spec fn dec_cell_items(xs: Seq<J>, i: int) -> Result<Seq<CellView>, E>
    decreases xs, xs.len() - i,
{
    if i < 0 || i >= xs.len() {
        Ok(Seq::empty())
    } else {
        match at(dec_cell(xs[i]), i) {
            Err(e) => Err(e),
            Ok(x) => match dec_cell_items(xs, i + 1) {
                Err(e) => Err(e),
                Ok(rest) => Ok(seq![x] + rest),
            },
        }
    }
}

pub open spec fn dec_cells(j: J) -> Result<Seq<CellView>, E>
    decreases j, 0int,
{
    match j {
        J::Array(xs) => dec_cell_items(xs, 0),
        _ => mismatch(Category::Cell, Expected::List),
    }
}

pub open spec fn dec_row(j: J) -> Result<RowView, E>
    decreases j, 0int,
{
    match j {
        J::Array(xs) if xs.len() == 2 => both(at(dec_attr(xs[0]), 0), at(dec_cells(xs[1]), 1)),
        _ => mismatch(Category::Row, Expected::Tuple(2)),
    }
}

/// The items of `xs` from index `i` on, each decoded, or the first failure.
pub open spec fn dec_row_items(xs: Seq<J>, i: int) -> Result<Seq<RowView>, E>
    decreases xs, xs.len() - i,
{
    if i < 0 || i >= xs.len() {
        Ok(Seq::empty())
    } else {
        match at(dec_row(xs[i]), i) {
            Err(e) => Err(e),
            Ok(x) => match dec_row_items(xs, i + 1) {
                Err(e) => Err(e),
                Ok(rest) => Ok(seq![x] + rest),
            },
        }
    }
}

pub open spec fn dec_rows(j: J) -> Result<Seq<RowView>, E>
    decreases j, 0int,
{
    match j {
        J::Array(xs) => dec_row_items(xs, 0),
        _ => mismatch(Category::Row, Expected::List),
    }
}

/// A table head or foot: attributes and rows.
pub open spec fn dec_head_or_foot(j: J, category: Category) -> Result<(AttrView, Seq<RowView>), E>
    decreases j, 0int,
{
    match j {
        J::Array(xs) if xs.len() == 2 => both(at(dec_attr(xs[0]), 0), at(dec_rows(xs[1]), 1)),
        _ => mismatch(category, Expected::Tuple(2)),
    }
}

pub open spec fn dec_body(j: J) -> Result<TableBodyView, E>
    decreases j, 0int,
{
    match j {
        J::Array(xs) if xs.len() == 4 => match both(
            at(dec_attr(xs[0]), 0),
            both(
                at(dec_int(xs[1], Category::TableBody), 1),
                both(at(dec_rows(xs[2]), 2), at(dec_rows(xs[3]), 3)),
            ),
        ) {
            Ok((a, (n, (h, r)))) => Ok((a, n, h, r)),
            Err(e) => Err(e),
        },
        _ => mismatch(Category::TableBody, Expected::Tuple(4)),
    }
}

/// The items of `xs` from index `i` on, each decoded, or the first failure.
pub open spec fn dec_body_items(xs: Seq<J>, i: int) -> Result<Seq<TableBodyView>, E>
    decreases xs, xs.len() - i,
{
    if i < 0 || i >= xs.len() {
        Ok(Seq::empty())
    } else {
        match at(dec_body(xs[i]), i) {
            Err(e) => Err(e),
            Ok(x) => match dec_body_items(xs, i + 1) {
                Err(e) => Err(e),
                Ok(rest) => Ok(seq![x] + rest),
            },
        }
    }
}

pub open spec fn dec_bodies(j: J) -> Result<Seq<TableBodyView>, E>
    decreases j, 0int,
{
    match j {
        J::Array(xs) => dec_body_items(xs, 0),
        _ => mismatch(Category::TableBody, Expected::List),
    }
}

pub open spec fn dec_inline(j: J) -> Result<InlineView, E>
    decreases j, 0int,
{
    match j {
        J::Object(e) => match tag_in(e) {
            None => mismatch(Category::Inline, Expected::Tagged),
            Some(t) => match inline_kind_of(t) {
                None => unknown(Category::Inline, t),
                Some(k) => if inline_is_unit(k) {
                    Ok(unit_inline(k))
                } else {
                    match lookup(e, "c"@) {
                        None => mismatch(Category::Inline, Expected::Payload),
                        Some(c) => {
                            proof {
                                lemma_lookup_smaller(e, "c"@);
                            }
                            at_key(dec_inline_with(k, c), "c"@)
                        },
                    }
                },
            },
        },
        _ => mismatch(Category::Inline, Expected::Tagged),
    }
}

pub open spec fn unit_inline(k: InlineKind) -> InlineView {
    if k == InlineKind::Space {
        InlineView::Space
    } else if k == InlineKind::SoftBreak {
        InlineView::SoftBreak
    } else {
        InlineView::LineBreak
    }
}

/// An inline of kind `k` from its payload `c`.
pub open spec fn dec_inline_with(k: InlineKind, c: J) -> Result<InlineView, E>
    decreases c, 1int,
{
    match k {
        InlineKind::Str => match dec_text(c, Category::Inline) {
            Ok(s) => Ok(InlineView::Str(s)),
            Err(e) => Err(e),
        },
        InlineKind::Emph => match dec_inlines(c) {
            Ok(s) => Ok(InlineView::Emph(s)),
            Err(e) => Err(e),
        },
        InlineKind::Underline => match dec_inlines(c) {
            Ok(s) => Ok(InlineView::Underline(s)),
            Err(e) => Err(e),
        },
        InlineKind::Strong => match dec_inlines(c) {
            Ok(s) => Ok(InlineView::Strong(s)),
            Err(e) => Err(e),
        },
        InlineKind::Strikeout => match dec_inlines(c) {
            Ok(s) => Ok(InlineView::Strikeout(s)),
            Err(e) => Err(e),
        },
        InlineKind::Superscript => match dec_inlines(c) {
            Ok(s) => Ok(InlineView::Superscript(s)),
            Err(e) => Err(e),
        },
        InlineKind::Subscript => match dec_inlines(c) {
            Ok(s) => Ok(InlineView::Subscript(s)),
            Err(e) => Err(e),
        },
        InlineKind::SmallCaps => match dec_inlines(c) {
            Ok(s) => Ok(InlineView::SmallCaps(s)),
            Err(e) => Err(e),
        },
        InlineKind::Note => match dec_blocks(c) {
            Ok(s) => Ok(InlineView::Note(s)),
            Err(e) => Err(e),
        },
        InlineKind::Quoted => match c {
            J::Array(xs) if xs.len() == 2 => match both(at(dec_quote(xs[0]), 0), at(dec_inlines(xs[1]), 1)) {
                Ok((q, s)) => Ok(InlineView::Quoted(q, s)),
                Err(e) => Err(e),
            },
            _ => mismatch(Category::Inline, Expected::Tuple(2)),
        },
        InlineKind::Cite => match c {
            J::Array(xs) if xs.len() == 2 => match both(at(dec_citations(xs[0]), 0), at(dec_inlines(xs[1]), 1)) {
                Ok((cs, s)) => Ok(InlineView::Cite(cs, s)),
                Err(e) => Err(e),
            },
            _ => mismatch(Category::Inline, Expected::Tuple(2)),
        },
        InlineKind::Code => match c {
            J::Array(xs) if xs.len() == 2 => match both(at(dec_attr(xs[0]), 0), at(dec_text(xs[1], Category::Inline), 1)) {
                Ok((a, s)) => Ok(InlineView::Code(a, s)),
                Err(e) => Err(e),
            },
            _ => mismatch(Category::Inline, Expected::Tuple(2)),
        },
        InlineKind::Math => match c {
            J::Array(xs) if xs.len() == 2 => match both(at(dec_math(xs[0]), 0), at(dec_text(xs[1], Category::Inline), 1)) {
                Ok((m, s)) => Ok(InlineView::Math(m, s)),
                Err(e) => Err(e),
            },
            _ => mismatch(Category::Inline, Expected::Tuple(2)),
        },
        InlineKind::RawInline => match c {
            J::Array(xs) if xs.len() == 2 => match both(at(dec_text(xs[0], Category::Format), 0), at(dec_text(xs[1], Category::Inline), 1)) {
                Ok((f, s)) => Ok(InlineView::RawInline(f, s)),
                Err(e) => Err(e),
            },
            _ => mismatch(Category::Inline, Expected::Tuple(2)),
        },
        InlineKind::Link => match c {
            J::Array(xs) if xs.len() == 3 => match both(at(dec_attr(xs[0]), 0), both(at(dec_inlines(xs[1]), 1), at(dec_pair(xs[2], Category::Target), 2))) {
                Ok((a, (s, t))) => Ok(InlineView::Link(a, s, t)),
                Err(e) => Err(e),
            },
            _ => mismatch(Category::Inline, Expected::Tuple(3)),
        },
        InlineKind::Image => match c {
            J::Array(xs) if xs.len() == 3 => match both(at(dec_attr(xs[0]), 0), both(at(dec_inlines(xs[1]), 1), at(dec_pair(xs[2], Category::Target), 2))) {
                Ok((a, (s, t))) => Ok(InlineView::Image(a, s, t)),
                Err(e) => Err(e),
            },
            _ => mismatch(Category::Inline, Expected::Tuple(3)),
        },
        InlineKind::Span => match c {
            J::Array(xs) if xs.len() == 2 => match both(at(dec_attr(xs[0]), 0), at(dec_inlines(xs[1]), 1)) {
                Ok((a, s)) => Ok(InlineView::Span(a, s)),
                Err(e) => Err(e),
            },
            _ => mismatch(Category::Inline, Expected::Tuple(2)),
        },
        _ => Ok(unit_inline(k)),
    }
}

pub open spec fn dec_block(j: J) -> Result<BlockView, E>
    decreases j, 0int,
{
    match j {
        J::Object(e) => match tag_in(e) {
            None => mismatch(Category::Block, Expected::Tagged),
            Some(t) => match block_kind_of(t) {
                None => unknown(Category::Block, t),
                Some(k) => if block_is_unit(k) {
                    Ok(unit_block(k))
                } else {
                    match lookup(e, "c"@) {
                        None => mismatch(Category::Block, Expected::Payload),
                        Some(c) => {
                            proof {
                                lemma_lookup_smaller(e, "c"@);
                            }
                            at_key(dec_block_with(k, c), "c"@)
                        },
                    }
                },
            },
        },
        _ => mismatch(Category::Block, Expected::Tagged),
    }
}

pub open spec fn unit_block(k: BlockKind) -> BlockView {
    if k == BlockKind::HorizontalRule {
        BlockView::HorizontalRule
    } else {
        BlockView::Null
    }
}

/// A block of kind `k` from its payload `c`.
pub open spec fn dec_block_with(k: BlockKind, c: J) -> Result<BlockView, E>
    decreases c, 1int,
{
    match k {
        BlockKind::Plain => match dec_inlines(c) {
            Ok(s) => Ok(BlockView::Plain(s)),
            Err(e) => Err(e),
        },
        BlockKind::Para => match dec_inlines(c) {
            Ok(s) => Ok(BlockView::Para(s)),
            Err(e) => Err(e),
        },
        BlockKind::LineBlock => match dec_inline_lists(c) {
            Ok(s) => Ok(BlockView::LineBlock(s)),
            Err(e) => Err(e),
        },
        BlockKind::BlockQuote => match dec_blocks(c) {
            Ok(s) => Ok(BlockView::BlockQuote(s)),
            Err(e) => Err(e),
        },
        BlockKind::BulletList => match dec_block_lists(c) {
            Ok(s) => Ok(BlockView::BulletList(s)),
            Err(e) => Err(e),
        },
        BlockKind::DefinitionList => match dec_definitions(c) {
            Ok(s) => Ok(BlockView::DefinitionList(s)),
            Err(e) => Err(e),
        },
        BlockKind::CodeBlock => match c {
            J::Array(xs) if xs.len() == 2 => match both(at(dec_attr(xs[0]), 0), at(dec_text(xs[1], Category::Block), 1)) {
                Ok((a, s)) => Ok(BlockView::CodeBlock(a, s)),
                Err(e) => Err(e),
            },
            _ => mismatch(Category::Block, Expected::Tuple(2)),
        },
        BlockKind::RawBlock => match c {
            J::Array(xs) if xs.len() == 2 => match both(at(dec_text(xs[0], Category::Format), 0), at(dec_text(xs[1], Category::Block), 1)) {
                Ok((f, s)) => Ok(BlockView::RawBlock(f, s)),
                Err(e) => Err(e),
            },
            _ => mismatch(Category::Block, Expected::Tuple(2)),
        },
        BlockKind::OrderedList => match c {
            J::Array(xs) if xs.len() == 2 => match both(at(dec_list_attributes(xs[0]), 0), at(dec_block_lists(xs[1]), 1)) {
                Ok((l, s)) => Ok(BlockView::OrderedList(l, s)),
                Err(e) => Err(e),
            },
            _ => mismatch(Category::Block, Expected::Tuple(2)),
        },
        BlockKind::Figure => match c {
            J::Array(xs) if xs.len() == 3 => match both(at(dec_attr(xs[0]), 0), both(at(dec_caption(xs[1]), 1), at(dec_blocks(xs[2]), 2))) {
                Ok((a, (cap, s))) => Ok(BlockView::Figure(a, cap, s)),
                Err(e) => Err(e),
            },
            _ => mismatch(Category::Block, Expected::Tuple(3)),
        },
        BlockKind::Header => match c {
            J::Array(xs) if xs.len() == 3 => match both(at(dec_int(xs[0], Category::Block), 0), both(at(dec_attr(xs[1]), 1), at(dec_inlines(xs[2]), 2))) {
                Ok((l, (a, s))) => Ok(BlockView::Header(l, a, s)),
                Err(e) => Err(e),
            },
            _ => mismatch(Category::Block, Expected::Tuple(3)),
        },
        BlockKind::Table => match c {
            J::Array(xs) if xs.len() == 6 => match both(
                at(dec_attr(xs[0]), 0),
                both(
                    at(dec_caption(xs[1]), 1),
                    both(
                        at(dec_col_specs(xs[2]), 2),
                        both(
                            at(dec_head_or_foot(xs[3], Category::TableHead), 3),
                            both(at(dec_bodies(xs[4]), 4), at(dec_head_or_foot(xs[5], Category::TableFoot), 5)),
                        ),
                    ),
                ),
            ) {
                Ok((a, (cap, (cols, (head, (bodies, foot)))))) => Ok(BlockView::Table(a, cap, cols, head, bodies, foot)),
                Err(e) => Err(e),
            },
            _ => mismatch(Category::Block, Expected::Tuple(6)),
        },
        BlockKind::Div => match c {
            J::Array(xs) if xs.len() == 2 => match both(at(dec_attr(xs[0]), 0), at(dec_blocks(xs[1]), 1)) {
                Ok((a, s)) => Ok(BlockView::Div(a, s)),
                Err(e) => Err(e),
            },
            _ => mismatch(Category::Block, Expected::Tuple(2)),
        },
        _ => Ok(unit_block(k)),
    }
}

// ---------------------------------------------------------------- metadata keys in order

/// `a` before `b` in the order of their characters' code points, a prefix first.
pub open spec fn text_lt_from(a: Text, b: Text, k: int) -> bool
    decreases a.len() - k,
{
    if k < 0 || k >= a.len() {
        0 <= k < b.len()
    } else if k >= b.len() {
        false
    } else if a[k] != b[k] {
        (a[k] as u32) < (b[k] as u32)
    } else {
        text_lt_from(a, b, k + 1)
    }
}

pub open spec fn text_lt(a: Text, b: Text) -> bool {
    text_lt_from(a, b, 0)
}

/// The index, from `k` on, of the first entry whose key is not before `key`.
pub open spec fn key_position(s: MetaView, key: Text, k: int) -> int
    decreases s.len() - k,
{
    if k < 0 || k >= s.len() {
        s.len() as int
    } else if !text_lt(s[k].0, key) {
        k
    } else {
        key_position(s, key, k + 1)
    }
}

/// Entries ordered by key with `e` added in its place; an entry with the same key gives way to
/// `e`.
pub open spec fn insert_entry(s: MetaView, e: (Text, MetaValueView)) -> MetaView {
    let p = key_position(s, e.0, 0);
    if 0 <= p < s.len() && s[p].0 == e.0 {
        s.update(p, e)
    } else {
        s.insert(p, e)
    }
}

/// The entries ordered by key, one per key (the last one read).
pub open spec fn sort_entries(s: MetaView) -> MetaView
    decreases s.len(),
{
    if s.len() == 0 {
        s
    } else {
        insert_entry(sort_entries(s.drop_last()), s[s.len() - 1])
    }
}

/// Keys strictly increasing: the form in which metadata is read.
pub open spec fn entries_sorted(s: MetaView) -> bool {
    forall|i: int, j: int| 0 <= i < j < s.len() ==> text_lt(s[i].0, s[j].0)
}

/// Every metadata map within `m` has its keys strictly increasing.
pub open spec fn meta_value_wf(m: MetaValueView) -> bool
    decreases m,
{
    match m {
        MetaValueView::MetaMap(c) => entries_sorted(c) && forall|k: int|
            0 <= k < c.len() ==> meta_value_wf(#[trigger] c[k].1),
        MetaValueView::MetaList(c) => forall|k: int| 0 <= k < c.len() ==> meta_value_wf(#[trigger] c[k]),
        _ => true,
    }
}

/// A document as reading gives it: metadata keys strictly increasing, at every level.
pub open spec fn pandoc_wf(d: PandocView) -> bool {
    &&& entries_sorted(d.meta)
    &&& forall|k: int| 0 <= k < d.meta.len() ==> meta_value_wf(#[trigger] d.meta[k].1)
}

} // verus!
