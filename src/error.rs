//! What can go wrong when a document is read.
use vstd::prelude::*;

use crate::view::Text;

verus! {

/// The kind of node that was being read when decoding failed.
#[derive(Debug, Clone, Copy, PartialEq, Eq, Structural)]
pub enum Category {
    Document,
    Version,
    Meta,
    MetaValue,
    Block,
    Inline,
    Attr,
    Target,
    Format,
    Text,
    Integer,
    ListAttributes,
    ListNumberStyle,
    ListNumberDelim,
    QuoteType,
    MathType,
    Alignment,
    ColSpec,
    ColWidth,
    Caption,
    TableHead,
    TableBody,
    TableFoot,
    Row,
    Cell,
    Citation,
    CitationMode,
}

/// The shape that was expected where decoding failed.
#[derive(Debug, Clone, Copy, PartialEq, Eq, Structural)]
pub enum Expected {
    /// An object with a string under "t".
    Tagged,
    /// A payload under "c".
    Payload,
    /// An object.
    Object,
    /// An entry under the given key of an object.
    Field,
    /// An array of exactly this many items.
    Tuple(usize),
    /// An array of any length.
    List,
    /// An array, or null.
    ListOrNull,
    String,
    Integer,
    /// An integer from 0 to 4294967295.
    Unsigned,
    Bool,
    Number,
}

/// One step from a node to one of its children: a key of an object or an index of an array.
#[derive(Debug, PartialEq)]
pub enum PathStep {
    Key(String),
    Index(usize),
}

#[derive(Debug, PartialEq)]
pub enum DecodeError {
    /// The text is not JSON.
    MalformedJson { line: usize, column: usize },
    /// No version at the top level, or one that is not an array starting with two integers.
    MissingVersionField,
    /// The major version differs from the required one, or the minor version is lower.
    UnsupportedVersion { required: (i64, i64), found: (i64, i64) },
    /// A tagged node names no variant of its category.
    UnknownDiscriminator { category: Category, tag: String, path: Vec<PathStep> },
    /// A node does not have the shape that its category asks for.
    ShapeMismatch { category: Category, expected: Expected, path: Vec<PathStep> },
}

pub enum PathStepView {
    Key(Text),
    Index(int),
}

pub enum DecodeErrorView {
    MalformedJson { line: usize, column: usize },
    MissingVersionField,
    UnsupportedVersion { required: (i64, i64), found: (i64, i64) },
    UnknownDiscriminator { category: Category, tag: Text, path: Seq<PathStepView> },
    ShapeMismatch { category: Category, expected: Expected, path: Seq<PathStepView> },
}

pub open spec fn step_view(s: PathStep) -> PathStepView {
    match s {
        PathStep::Key(k) => PathStepView::Key(k@),
        PathStep::Index(i) => PathStepView::Index(i as int),
    }
}

pub open spec fn path_view(p: Vec<PathStep>) -> Seq<PathStepView> {
    p@.map_values(|s: PathStep| step_view(s))
}

pub open spec fn error_view(e: DecodeError) -> DecodeErrorView {
    match e {
        DecodeError::MalformedJson { line, column } => DecodeErrorView::MalformedJson { line, column },
        DecodeError::MissingVersionField => DecodeErrorView::MissingVersionField,
        DecodeError::UnsupportedVersion { required, found } => DecodeErrorView::UnsupportedVersion {
            required,
            found,
        },
        DecodeError::UnknownDiscriminator { category, tag, path } =>
            DecodeErrorView::UnknownDiscriminator { category, tag: tag@, path: path_view(path) },
        DecodeError::ShapeMismatch { category, expected, path } => DecodeErrorView::ShapeMismatch {
            category,
            expected,
            path: path_view(path),
        },
    }
}

/// The same failure, one step further from the root: `step` goes before its path.
pub open spec fn step_back(e: DecodeErrorView, step: PathStepView) -> DecodeErrorView {
    match e {
        DecodeErrorView::UnknownDiscriminator { category, tag, path } =>
            DecodeErrorView::UnknownDiscriminator { category, tag, path: seq![step] + path },
        DecodeErrorView::ShapeMismatch { category, expected, path } =>
            DecodeErrorView::ShapeMismatch { category, expected, path: seq![step] + path },
        _ => e,
    }
}

/// Moves the failure of a child's decoding to the parent, through `step`.
pub open spec fn within<T>(r: Result<T, DecodeErrorView>, step: PathStepView) -> Result<
    T,
    DecodeErrorView,
> {
    match r {
        Ok(v) => Ok(v),
        Err(e) => Err(step_back(e, step)),
    }
}

pub open spec fn mismatch<T>(category: Category, expected: Expected) -> Result<T, DecodeErrorView> {
    Err(DecodeErrorView::ShapeMismatch { category, expected, path: Seq::empty() })
}

} // verus!
