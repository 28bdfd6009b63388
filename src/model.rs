use vstd::prelude::*;

verus! {

pub type Int = i64;

/// Identifier, classes, key-value pairs.
pub type Attr = (String, Vec<String>, Vec<(String, String)>);

/// Link target: URL and title.
pub type Target = (String, String);

/// Start number, numbering style and delimiter of an ordered list.
pub type ListAttributes = (Int, ListNumberStyle, ListNumberDelim);

/// Table cells are lists of blocks.
pub type TableCell = Vec<Block>;

/// Short caption of a table.
pub type ShortCaption = Vec<Inline>;

/// Caption of a table or figure: optional short caption, then the caption blocks.
pub type Caption = (Option<ShortCaption>, Vec<Block>);

pub type RowHeadColumns = Int;

pub type RowSpan = Int;

pub type ColSpan = Int;

/// Alignment and width of one table column.
pub type ColSpec = (Alignment, ColWidth);

/// Attributes and cells of a table row.
pub type Row = (Attr, Vec<Cell>);

pub type TableHead = (Attr, Vec<Row>);

/// Attributes, row head columns, header rows and body rows.
pub type TableBody = (Attr, RowHeadColumns, Vec<Row>, Vec<Row>);

pub type TableFoot = (Attr, Vec<Row>);

pub type Cell = (Attr, Alignment, RowSpan, ColSpan, Vec<Block>);

/// Metadata entries: each key with its value, in the order they were read or added. Keys are
/// meant to be unique: JSON text read through serde_json never repeats one, and a repeated key
/// keeps only one entry when the document is written as text.
pub type Meta = Vec<(String, MetaValue)>;

/// The root of a document: metadata, blocks and the version of the tree's schema.
#[derive(Debug, PartialEq)]
pub struct Pandoc {
    pub meta: Meta,
    pub blocks: Vec<Block>,
    pub pandoc_api_version: Vec<u32>,
}

#[derive(Debug, PartialEq)]
pub enum MetaValue {
    MetaMap(Meta),
    MetaList(Vec<MetaValue>),
    MetaBool(bool),
    MetaString(String),
    MetaInlines(Vec<Inline>),
    MetaBlocks(Vec<Block>),
}

/// Block-level content: paragraphs, lists, tables and the like.
#[derive(Debug, PartialEq)]
pub enum Block {
    /// Plain text, not a paragraph
    Plain(Vec<Inline>),
    /// Paragraph
    Para(Vec<Inline>),
    /// Multiple non-breaking lines
    LineBlock(Vec<Vec<Inline>>),
    /// Code block (literal) with attributes
    CodeBlock(Attr, String),
    RawBlock(Format, String),
    /// Block quote (list of blocks)
    BlockQuote(Vec<Block>),
    /// Ordered list (attributes and a list of items, each a list of blocks)
    OrderedList(ListAttributes, Vec<Vec<Block>>),
    /// Bullet list (list of items, each a list of blocks)
    BulletList(Vec<Vec<Block>>),
    /// Definition list: each item pairs a term with one or more definitions
    DefinitionList(Vec<(Vec<Inline>, Vec<Vec<Block>>)>),
    /// Figure, with attributes, caption, list of blocks
    Figure(Attr, Caption, Vec<Block>),
    /// Header: level and text
    Header(Int, Attr, Vec<Inline>),
    HorizontalRule,
    /// Table: attributes, caption, column specifications, head, bodies and foot
    Table(Attr, Caption, Vec<ColSpec>, TableHead, Vec<TableBody>, TableFoot),
    /// Generic block container with attributes
    Div(Attr, Vec<Block>),
    /// Nothing
    Null,
}

/// Inline content: text, formatting, links, notes.
#[derive(Debug, PartialEq)]
pub enum Inline {
    /// Text
    Str(String),
    /// Emphasized text
    Emph(Vec<Inline>),
    /// Underlined text
    Underline(Vec<Inline>),
    /// Strongly emphasized text
    Strong(Vec<Inline>),
    Strikeout(Vec<Inline>),
    Superscript(Vec<Inline>),
    Subscript(Vec<Inline>),
    SmallCaps(Vec<Inline>),
    /// Quoted text
    Quoted(QuoteType, Vec<Inline>),
    /// Citation
    Cite(Vec<Citation>, Vec<Inline>),
    /// Inline code (literal)
    Code(Attr, String),
    /// Inter-word space
    Space,
    /// Soft line break
    SoftBreak,
    /// Hard line break
    LineBreak,
    /// TeX math (literal)
    Math(MathType, String),
    RawInline(Format, String),
    /// Hyperlink: attributes, text, target
    Link(Attr, Vec<Inline>, Target),
    /// Image: attributes, alt text, target
    Image(Attr, Vec<Inline>, Target),
    /// Footnote or endnote
    Note(Vec<Block>),
    /// Generic inline container with attributes
    Span(Attr, Vec<Inline>),
}

/// Alignment of a table column.
#[derive(Debug, Clone, Copy, PartialEq, Eq, Hash)]
pub enum Alignment {
    AlignLeft,
    AlignRight,
    AlignCenter,
    AlignDefault,
}

/// Style of list numbers.
#[derive(Debug, Clone, Copy, PartialEq, Eq, Hash)]
pub enum ListNumberStyle {
    DefaultStyle,
    Example,
    Decimal,
    LowerRoman,
    UpperRoman,
    LowerAlpha,
    UpperAlpha,
}

/// Delimiter of list numbers.
#[derive(Debug, Clone, Copy, PartialEq, Eq, Hash)]
pub enum ListNumberDelim {
    DefaultDelim,
    Period,
    OneParen,
    TwoParens,
}

/// Format of raw content, such as "tex" or "html".
#[derive(Debug, Clone, PartialEq, Eq, Hash)]
pub struct Format(pub String);

/// Type of quotation marks of a quoted inline.
#[derive(Debug, Clone, Copy, PartialEq, Eq, Hash)]
pub enum QuoteType {
    SingleQuote,
    DoubleQuote,
}

/// Width of a table column: an explicit number, or the default.
/// The number is kept as the JSON number it was read as, so that it is written back unchanged.
#[derive(Debug, Clone, PartialEq)]
pub enum ColWidth {
    ColWidth(serde_json::Number),
    ColWidthDefault,
}

/// Type of math element (display or inline).
#[derive(Debug, Clone, Copy, PartialEq, Eq, Hash)]
pub enum MathType {
    DisplayMath,
    InlineMath,
}

#[derive(Debug, PartialEq)]
#[allow(non_snake_case)]
pub struct Citation {
    pub citationId: String,
    pub citationPrefix: Vec<Inline>,
    pub citationSuffix: Vec<Inline>,
    pub citationMode: CitationMode,
    pub citationNoteNum: Int,
    pub citationHash: Int,
}

#[derive(Debug, Clone, Copy, PartialEq, Eq, Hash)]
pub enum CitationMode {
    AuthorInText,
    SuppressAuthor,
    NormalCitation,
}

} // verus!
