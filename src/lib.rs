//! A typed document tree of the pandoc document converter, its JSON wire form, and a traversal
//! with override points, for writing filters that read a document, change it and write it back.
use vstd::prelude::*;

pub mod bridge;
pub mod decode;
pub mod encode;
pub mod error;
pub mod json;
pub mod model;
pub mod round_trip;
pub mod view;
pub mod visitor;
pub mod wire;

pub use error::{Category, DecodeError, Expected, PathStep};
pub use json::Json;
pub use model::{
    Alignment, Attr, Block, Caption, Cell, Citation, CitationMode, ColSpan, ColSpec, ColWidth,
    Format, Inline, Int, ListAttributes, ListNumberDelim, ListNumberStyle, MathType, Meta,
    MetaValue, Pandoc, QuoteType, Row, RowHeadColumns, RowSpan, ShortCaption, TableBody,
    TableCell, TableFoot, TableHead, Target,
};
pub use visitor::{
    walk_attr, walk_block, walk_inline, walk_meta, walk_pandoc, walk_rows, walk_vec_block,
    walk_vec_inline, MutVisitor, NoOp, Step,
};

use bridge::{keys_unique_throughout, parsed, text_of, written_form};
use decode::decoded;
use error::{error_view, DecodeErrorView};
use json::json_view;
use view::pandoc_view;
use wire::{dec_pandoc, enc_pandoc, pandoc_wf, version_supported};

verus! {

impl Pandoc {
    /// Reads a document from its JSON value.
    pub fn from_json_value(json: &Json) -> (r: Result<Pandoc, DecodeError>)
        ensures
            decoded(r, |d: Pandoc| pandoc_view(d), dec_pandoc(json_view(*json))),
    {
        decode::read_pandoc(json)
    }

    /// The JSON value of the document.
    pub fn to_json_value(&self) -> (r: Json)
        ensures
            json_view(r) == enc_pandoc(pandoc_view(*self)),
    {
        encode::write_pandoc(self)
    }

    /// Reads a document from JSON text.
    pub fn from_json(json: &str) -> (r: Result<Pandoc, DecodeError>)
        ensures
            match parsed(json@) {
                None => r matches Err(DecodeError::MalformedJson { .. }),
                Some(j) => decoded(r, |d: Pandoc| pandoc_view(d), dec_pandoc(j)),
            },
    {
        match bridge::parse_json(json) {
            Ok(j) => decode::read_pandoc(&j),
            Err((line, column)) => Err(DecodeError::MalformedJson { line, column }),
        }
    }

    /// The document as JSON text. Where every object of its wire form has unique keys (metadata
    /// keys can repeat in a `Meta`; serde_json's map keeps one entry per key), the text is what
    /// serde_json writes for that wire form.
    pub fn to_json(&self) -> (r: String)
        ensures
            keys_unique_throughout(enc_pandoc(pandoc_view(*self))) ==> r@ == text_of(
                written_form(enc_pandoc(pandoc_view(*self))),
            ),
    {
        bridge::write_json(&encode::write_pandoc(self))
    }
}

/// Writing a document's wire form and reading it back gives a document structurally equal to
/// it, for every document whose version is one that reading accepts and whose metadata keys
/// are in the order reading gives them (strictly increasing, at every level).
pub proof fn round_trip(d: Pandoc)
    requires
        d.pandoc_api_version@.len() >= 2,
        version_supported(d.pandoc_api_version@[0] as i64, d.pandoc_api_version@[1] as i64),
        pandoc_wf(pandoc_view(d)),
    ensures
        dec_pandoc(enc_pandoc(pandoc_view(d))) == Ok::<_, DecodeErrorView>(pandoc_view(d)),
{
    round_trip::lemma_round_trip(pandoc_view(d));
}

/// Reads a document from JSON text, hands it to `f`, and writes what `f` gives back.
pub fn filter<F: FnOnce(Pandoc) -> Pandoc>(json: String, f: F) -> (r: Result<String, DecodeError>)
    requires
        forall|d: Pandoc| f.requires((d,)),
    ensures
        match parsed(json@) {
            None => r matches Err(DecodeError::MalformedJson { .. }),
            Some(j) => match dec_pandoc(j) {
                Ok(v) => exists|d: Pandoc, e: Pandoc|
                    {
                        &&& pandoc_view(d) == v
                        &&& #[trigger] f.ensures((d,), e)
                        &&& r matches Ok(s) && (keys_unique_throughout(enc_pandoc(pandoc_view(e)))
                            ==> s@ == text_of(written_form(enc_pandoc(pandoc_view(e)))))
                    },
                Err(e) => r matches Err(x) && error_view(x) == e,
            },
        },
{
    let d = Pandoc::from_json(json.as_str())?;
    let ghost d0 = d;
    let e = f(d);
    let s = e.to_json();
    proof {
        assert(f.ensures((d0,), e));
    }
    Ok(s)
}

} // verus!
