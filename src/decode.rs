//! Reading a document from JSON, as the wire form states it.
use vstd::prelude::*;

use crate::error::{
    error_view, mismatch, path_view, step_back, step_view, Category, DecodeError, DecodeErrorView,
    Expected, PathStep, PathStepView,
};
use crate::json::{json_entries_view, json_items_view, json_view, Json, JsonView};
use crate::model::{
    Alignment, Attr, Block, Caption, Cell, Citation, CitationMode, ColSpec, ColWidth, Format,
    Inline, ListAttributes, ListNumberDelim, ListNumberStyle, MathType, Meta, MetaValue, Pandoc,
    QuoteType, Row, TableBody, Target,
};
use crate::view::{
    attr_view, block_lists_view, block_view, blocks_view, bodies_view, body_view, caption_view,
    cell_view, cells_view, citation_view, citations_view, definitions_view, inline_lists_view,
    inline_view, inlines_view, meta_value_view, meta_values_view, meta_view, pandoc_view,
    row_view, rows_view, strings_view, target_view, Text,
};
use crate::wire::{
    alignment_of, block_is_unit, block_kind_of, dec_alignment, dec_attr, dec_block,
    dec_block_items, dec_block_list_items, dec_block_lists, dec_block_with, dec_blocks, dec_body,
    dec_body_items, dec_bodies, dec_caption, dec_cell, dec_cell_items, dec_cells, dec_citation,
    dec_citation_items, dec_citations, dec_col_spec, dec_col_spec_items, dec_col_specs,
    dec_col_width, dec_definition, dec_definition_items, dec_definitions, dec_delim,
    dec_head_or_foot, dec_inline, dec_inline_items, dec_inline_list_items, dec_inline_lists,
    dec_inline_with, dec_inlines, dec_int, dec_list_attributes, dec_math, dec_meta,
    dec_meta_entries, dec_meta_value, dec_meta_value_items, dec_meta_values, dec_meta_with,
    dec_mode, dec_pair, dec_pair_items, dec_pairs, dec_pandoc, dec_quote, dec_row, dec_row_items,
    dec_rows, dec_style, dec_tag, dec_text, dec_text_items, dec_texts, dec_version_items,
    dec_version_number, delim_of, inline_is_unit, inline_kind_of, lookup, math_of, meta_kind_of,
    mode_of, quote_of, style_of, tag_in, unit_block, unit_inline, version_of, version_supported,
    BlockKind, InlineKind, MetaKind, E, REQUIRED_MAJOR, REQUIRED_MINOR, text_lt, text_lt_from,
    key_position, insert_entry, sort_entries,
};

verus! {

broadcast use {vstd::std_specs::vec::axiom_vec_decreases_to_view, vstd::string::group_string_axioms};

/// `r` is what the wire form gives (`s`), seen through `view`.
pub open spec fn decoded<T, V>(r: Result<T, DecodeError>, view: spec_fn(T) -> V, s: Result<V, E>) -> bool {
    match r {
        Ok(x) => s == Ok::<V, E>(view(x)),
        Err(e) => s == Err::<V, E>(error_view(e)),
    }
}

/// `p` before the items of `r`, or the failure of `r`.
pub open spec fn prepend<T>(p: Seq<T>, r: Result<Seq<T>, E>) -> Result<Seq<T>, E> {
    match r {
        Ok(rest) => Ok(p + rest),
        Err(e) => Err(e),
    }
}

proof fn lemma_prepend_push<T>(p: Seq<T>, x: T, r: Result<Seq<T>, E>)
    ensures
        prepend(p, prepend(seq![x], r)) == prepend(p.push(x), r),
{
    match r {
        Ok(rest) => assert(p + (seq![x] + rest) =~= p.push(x) + rest),
        Err(_) => {},
    }
}

proof fn lemma_prepend_empty<T>(p: Seq<T>)
    ensures
        prepend(p, Ok::<_, E>(Seq::<T>::empty())) == Ok::<_, E>(p),
{
    assert(p + Seq::<T>::empty() =~= p);
}

fn is_named(t: &String, name: &str) -> (r: bool)
    ensures
        r == (t@ == name@),
{
    let n = name.to_string();
    t.eq(&n)
}

fn shape_error(category: Category, expected: Expected) -> (r: DecodeError)
    ensures
        error_view(r) == (DecodeErrorView::ShapeMismatch { category, expected, path: Seq::empty() }),
{
    let path: Vec<PathStep> = Vec::new();
    assert(path_view(path) =~= Seq::empty());
    DecodeError::ShapeMismatch { category, expected, path }
}

fn unknown_error(category: Category, tag: &String) -> (r: DecodeError)
    ensures
        error_view(r) == (DecodeErrorView::UnknownDiscriminator { category, tag: tag@, path: Seq::empty() }),
{
    let path: Vec<PathStep> = Vec::new();
    assert(path_view(path) =~= Seq::empty());
    DecodeError::UnknownDiscriminator { category, tag: tag.clone(), path }
}

fn step_error(e: DecodeError, step: PathStep) -> (r: DecodeError)
    ensures
        error_view(r) == step_back(error_view(e), step_view(step)),
{
    match e {
        DecodeError::UnknownDiscriminator { category, tag, path } => {
            let mut path = path;
            let ghost before = path_view(path);
            path.insert(0, step);
            assert(path_view(path) =~= seq![step_view(step)] + before);
            DecodeError::UnknownDiscriminator { category, tag, path }
        },
        DecodeError::ShapeMismatch { category, expected, path } => {
            let mut path = path;
            let ghost before = path_view(path);
            path.insert(0, step);
            assert(path_view(path) =~= seq![step_view(step)] + before);
            DecodeError::ShapeMismatch { category, expected, path }
        },
        other => other,
    }
}

fn at_index(e: DecodeError, i: usize) -> (r: DecodeError)
    ensures
        error_view(r) == step_back(error_view(e), PathStepView::Index(i as int)),
{
    step_error(e, PathStep::Index(i))
}

fn at_name(e: DecodeError, key: &str) -> (r: DecodeError)
    ensures
        error_view(r) == step_back(error_view(e), PathStepView::Key(key@)),
{
    step_error(e, PathStep::Key(key.to_string()))
}

/// The index of the first entry under `key`.
fn find_key(e: &Vec<(String, Json)>, key: &str) -> (r: Option<usize>)
    ensures
        match r {
            Some(i) => i < e@.len() && lookup(json_entries_view(*e), key@) == Some(json_view(e@[i as int].1)),
            None => lookup(json_entries_view(*e), key@) is None,
        },
{
    let ghost ev = json_entries_view(*e);
    let mut i: usize = 0;
    proof {
        assert(ev.subrange(0, ev.len() as int) =~= ev);
    }
    while i < e.len()
        invariant
            i <= e@.len(),
            ev == json_entries_view(*e),
            lookup(ev, key@) == lookup(ev.subrange(i as int, ev.len() as int), key@),
        decreases e.len() - i,
    {
        proof {
            assert(ev.subrange(i as int, ev.len() as int).drop_first() =~= ev.subrange(i + 1, ev.len() as int));
        }
        if is_named(&e[i].0, key) {
            return Some(i);
        }
        i += 1;
    }
    proof {
        assert(ev.subrange(i as int, ev.len() as int) =~= Seq::<(Text, JsonView)>::empty());
    }
    None
}

fn tag_of(e: &Vec<(String, Json)>) -> (r: Option<&String>)
    ensures
        match r {
            Some(t) => tag_in(json_entries_view(*e)) == Some(t@),
            None => tag_in(json_entries_view(*e)) is None,
        },
{
    match find_key(e, "t") {
        Some(i) => match &e[i].1 {
            Json::String(t) => Some(t),
            _ => None,
        },
        None => None,
    }
}

proof fn lemma_prepend_nil<T>(r: Result<Seq<T>, E>)
    ensures
        prepend(Seq::<T>::empty(), r) == r,
{
    match r {
        Ok(rest) => assert(Seq::<T>::empty() + rest =~= rest),
        Err(_) => {},
    }
}

fn meta_kind_named(t: &String) -> (r: Option<MetaKind>)
    ensures
        r == meta_kind_of(t@),
{
    if is_named(t, "MetaMap") {
        Some(MetaKind::MetaMap)
    } else if is_named(t, "MetaList") {
        Some(MetaKind::MetaList)
    } else if is_named(t, "MetaBool") {
        Some(MetaKind::MetaBool)
    } else if is_named(t, "MetaString") {
        Some(MetaKind::MetaString)
    } else if is_named(t, "MetaInlines") {
        Some(MetaKind::MetaInlines)
    } else if is_named(t, "MetaBlocks") {
        Some(MetaKind::MetaBlocks)
    } else {
        None
    }
}

fn block_kind_named(t: &String) -> (r: Option<BlockKind>)
    ensures
        r == block_kind_of(t@),
{
    if is_named(t, "Plain") {
        Some(BlockKind::Plain)
    } else if is_named(t, "Para") {
        Some(BlockKind::Para)
    } else if is_named(t, "LineBlock") {
        Some(BlockKind::LineBlock)
    } else if is_named(t, "CodeBlock") {
        Some(BlockKind::CodeBlock)
    } else if is_named(t, "RawBlock") {
        Some(BlockKind::RawBlock)
    } else if is_named(t, "BlockQuote") {
        Some(BlockKind::BlockQuote)
    } else if is_named(t, "OrderedList") {
        Some(BlockKind::OrderedList)
    } else if is_named(t, "BulletList") {
        Some(BlockKind::BulletList)
    } else if is_named(t, "DefinitionList") {
        Some(BlockKind::DefinitionList)
    } else if is_named(t, "Figure") {
        Some(BlockKind::Figure)
    } else if is_named(t, "Header") {
        Some(BlockKind::Header)
    } else if is_named(t, "HorizontalRule") {
        Some(BlockKind::HorizontalRule)
    } else if is_named(t, "Table") {
        Some(BlockKind::Table)
    } else if is_named(t, "Div") {
        Some(BlockKind::Div)
    } else if is_named(t, "Null") {
        Some(BlockKind::Null)
    } else {
        None
    }
}

fn inline_kind_named(t: &String) -> (r: Option<InlineKind>)
    ensures
        r == inline_kind_of(t@),
{
    if is_named(t, "Str") {
        Some(InlineKind::Str)
    } else if is_named(t, "Emph") {
        Some(InlineKind::Emph)
    } else if is_named(t, "Underline") {
        Some(InlineKind::Underline)
    } else if is_named(t, "Strong") {
        Some(InlineKind::Strong)
    } else if is_named(t, "Strikeout") {
        Some(InlineKind::Strikeout)
    } else if is_named(t, "Superscript") {
        Some(InlineKind::Superscript)
    } else if is_named(t, "Subscript") {
        Some(InlineKind::Subscript)
    } else if is_named(t, "SmallCaps") {
        Some(InlineKind::SmallCaps)
    } else if is_named(t, "Quoted") {
        Some(InlineKind::Quoted)
    } else if is_named(t, "Cite") {
        Some(InlineKind::Cite)
    } else if is_named(t, "Code") {
        Some(InlineKind::Code)
    } else if is_named(t, "Space") {
        Some(InlineKind::Space)
    } else if is_named(t, "SoftBreak") {
        Some(InlineKind::SoftBreak)
    } else if is_named(t, "LineBreak") {
        Some(InlineKind::LineBreak)
    } else if is_named(t, "Math") {
        Some(InlineKind::Math)
    } else if is_named(t, "RawInline") {
        Some(InlineKind::RawInline)
    } else if is_named(t, "Link") {
        Some(InlineKind::Link)
    } else if is_named(t, "Image") {
        Some(InlineKind::Image)
    } else if is_named(t, "Note") {
        Some(InlineKind::Note)
    } else if is_named(t, "Span") {
        Some(InlineKind::Span)
    } else {
        None
    }
}

fn alignment_named(t: &String) -> (r: Option<Alignment>)
    ensures
        r == alignment_of(t@),
{
    if is_named(t, "AlignLeft") {
        Some(Alignment::AlignLeft)
    } else if is_named(t, "AlignRight") {
        Some(Alignment::AlignRight)
    } else if is_named(t, "AlignCenter") {
        Some(Alignment::AlignCenter)
    } else if is_named(t, "AlignDefault") {
        Some(Alignment::AlignDefault)
    } else {
        None
    }
}

fn style_named(t: &String) -> (r: Option<ListNumberStyle>)
    ensures
        r == style_of(t@),
{
    if is_named(t, "DefaultStyle") {
        Some(ListNumberStyle::DefaultStyle)
    } else if is_named(t, "Example") {
        Some(ListNumberStyle::Example)
    } else if is_named(t, "Decimal") {
        Some(ListNumberStyle::Decimal)
    } else if is_named(t, "LowerRoman") {
        Some(ListNumberStyle::LowerRoman)
    } else if is_named(t, "UpperRoman") {
        Some(ListNumberStyle::UpperRoman)
    } else if is_named(t, "LowerAlpha") {
        Some(ListNumberStyle::LowerAlpha)
    } else if is_named(t, "UpperAlpha") {
        Some(ListNumberStyle::UpperAlpha)
    } else {
        None
    }
}

fn delim_named(t: &String) -> (r: Option<ListNumberDelim>)
    ensures
        r == delim_of(t@),
{
    if is_named(t, "DefaultDelim") {
        Some(ListNumberDelim::DefaultDelim)
    } else if is_named(t, "Period") {
        Some(ListNumberDelim::Period)
    } else if is_named(t, "OneParen") {
        Some(ListNumberDelim::OneParen)
    } else if is_named(t, "TwoParens") {
        Some(ListNumberDelim::TwoParens)
    } else {
        None
    }
}

fn quote_named(t: &String) -> (r: Option<QuoteType>)
    ensures
        r == quote_of(t@),
{
    if is_named(t, "SingleQuote") {
        Some(QuoteType::SingleQuote)
    } else if is_named(t, "DoubleQuote") {
        Some(QuoteType::DoubleQuote)
    } else {
        None
    }
}

fn math_named(t: &String) -> (r: Option<MathType>)
    ensures
        r == math_of(t@),
{
    if is_named(t, "DisplayMath") {
        Some(MathType::DisplayMath)
    } else if is_named(t, "InlineMath") {
        Some(MathType::InlineMath)
    } else {
        None
    }
}

fn mode_named(t: &String) -> (r: Option<CitationMode>)
    ensures
        r == mode_of(t@),
{
    if is_named(t, "AuthorInText") {
        Some(CitationMode::AuthorInText)
    } else if is_named(t, "SuppressAuthor") {
        Some(CitationMode::SuppressAuthor)
    } else if is_named(t, "NormalCitation") {
        Some(CitationMode::NormalCitation)
    } else {
        None
    }
}

fn read_alignment(j: &Json) -> (r: Result<Alignment, DecodeError>)
    ensures
        decoded(r, |x: Alignment| x, dec_alignment(json_view(*j))),
{
    match j {
        Json::Object(e) => match tag_of(e) {
            Some(t) => match alignment_named(t) {
                Some(x) => Ok(x),
                None => Err(unknown_error(Category::Alignment, t)),
            },
            None => Err(shape_error(Category::Alignment, Expected::Tagged)),
        },
        _ => Err(shape_error(Category::Alignment, Expected::Tagged)),
    }
}

fn read_style(j: &Json) -> (r: Result<ListNumberStyle, DecodeError>)
    ensures
        decoded(r, |x: ListNumberStyle| x, dec_style(json_view(*j))),
{
    match j {
        Json::Object(e) => match tag_of(e) {
            Some(t) => match style_named(t) {
                Some(x) => Ok(x),
                None => Err(unknown_error(Category::ListNumberStyle, t)),
            },
            None => Err(shape_error(Category::ListNumberStyle, Expected::Tagged)),
        },
        _ => Err(shape_error(Category::ListNumberStyle, Expected::Tagged)),
    }
}

fn read_delim(j: &Json) -> (r: Result<ListNumberDelim, DecodeError>)
    ensures
        decoded(r, |x: ListNumberDelim| x, dec_delim(json_view(*j))),
{
    match j {
        Json::Object(e) => match tag_of(e) {
            Some(t) => match delim_named(t) {
                Some(x) => Ok(x),
                None => Err(unknown_error(Category::ListNumberDelim, t)),
            },
            None => Err(shape_error(Category::ListNumberDelim, Expected::Tagged)),
        },
        _ => Err(shape_error(Category::ListNumberDelim, Expected::Tagged)),
    }
}

fn read_quote(j: &Json) -> (r: Result<QuoteType, DecodeError>)
    ensures
        decoded(r, |x: QuoteType| x, dec_quote(json_view(*j))),
{
    match j {
        Json::Object(e) => match tag_of(e) {
            Some(t) => match quote_named(t) {
                Some(x) => Ok(x),
                None => Err(unknown_error(Category::QuoteType, t)),
            },
            None => Err(shape_error(Category::QuoteType, Expected::Tagged)),
        },
        _ => Err(shape_error(Category::QuoteType, Expected::Tagged)),
    }
}

fn read_math(j: &Json) -> (r: Result<MathType, DecodeError>)
    ensures
        decoded(r, |x: MathType| x, dec_math(json_view(*j))),
{
    match j {
        Json::Object(e) => match tag_of(e) {
            Some(t) => match math_named(t) {
                Some(x) => Ok(x),
                None => Err(unknown_error(Category::MathType, t)),
            },
            None => Err(shape_error(Category::MathType, Expected::Tagged)),
        },
        _ => Err(shape_error(Category::MathType, Expected::Tagged)),
    }
}

fn read_mode(j: &Json) -> (r: Result<CitationMode, DecodeError>)
    ensures
        decoded(r, |x: CitationMode| x, dec_mode(json_view(*j))),
{
    match j {
        Json::Object(e) => match tag_of(e) {
            Some(t) => match mode_named(t) {
                Some(x) => Ok(x),
                None => Err(unknown_error(Category::CitationMode, t)),
            },
            None => Err(shape_error(Category::CitationMode, Expected::Tagged)),
        },
        _ => Err(shape_error(Category::CitationMode, Expected::Tagged)),
    }
}

fn read_text(j: &Json, category: Category) -> (r: Result<String, DecodeError>)
    ensures
        decoded(r, |s: String| s@, dec_text(json_view(*j), category)),
{
    match j {
        Json::String(s) => Ok(s.clone()),
        _ => Err(shape_error(category, Expected::String)),
    }
}

fn read_int(j: &Json, category: Category) -> (r: Result<i64, DecodeError>)
    ensures
        decoded(r, |i: i64| i, dec_int(json_view(*j), category)),
{
    match j {
        Json::Int(i) => Ok(*i),
        _ => Err(shape_error(category, Expected::Integer)),
    }
}

fn read_pair(j: &Json, category: Category) -> (r: Result<(String, String), DecodeError>)
    ensures
        decoded(r, |p: (String, String)| (p.0@, p.1@), dec_pair(json_view(*j), category)),
{
    match j {
        Json::Array(xs) => if xs.len() == 2 {
            let a = match read_text(&xs[0], category) {
                Ok(a) => a,
                Err(e) => return Err(at_index(e, 0)),
            };
            let b = match read_text(&xs[1], category) {
                Ok(b) => b,
                Err(e) => return Err(at_index(e, 1)),
            };
            Ok((a, b))
        } else {
            Err(shape_error(category, Expected::Tuple(2)))
        },
        _ => Err(shape_error(category, Expected::Tuple(2))),
    }
}

fn read_text_items(xs: &Vec<Json>, category: Category) -> (r: Result<Vec<String>, DecodeError>)
    ensures
        decoded(r, |v: Vec<String>| strings_view(v), dec_text_items(json_items_view(*xs), category, 0)),
{
    let ghost xv = json_items_view(*xs);
    let mut out: Vec<String> = Vec::new();
    let mut i: usize = 0;
    proof {
        assert(strings_view(out) =~= Seq::empty());
        lemma_prepend_nil(dec_text_items(xv, category, 0));
    }
    while i < xs.len()
        invariant
            i <= xs@.len(),
            xv == json_items_view(*xs),
            dec_text_items(xv, category, 0) == prepend(strings_view(out), dec_text_items(xv, category, i as int)),
        decreases xs.len() - i,
    {
        match read_text(&xs[i], category) {
            Err(e) => {
                return Err(at_index(e, i));
            },
            Ok(x) => {
                let ghost before = strings_view(out);
                proof {
                    lemma_prepend_push(before, x@, dec_text_items(xv, category, i + 1));
                }
                out.push(x);
                proof {
                    assert(strings_view(out) =~= before.push(x@));
                }
            },
        }
        i += 1;
    }
    proof {
        lemma_prepend_empty(strings_view(out));
    }
    Ok(out)
}

fn read_pair_items(xs: &Vec<Json>, category: Category) -> (r: Result<Vec<(String, String)>, DecodeError>)
    ensures
        decoded(r, |v: Vec<(String, String)>| v@.map_values(|p: (String, String)| (p.0@, p.1@)), dec_pair_items(json_items_view(*xs), category, 0)),
{
    let ghost xv = json_items_view(*xs);
    let mut out: Vec<(String, String)> = Vec::new();
    let mut i: usize = 0;
    proof {
        assert(out@.map_values(|p: (String, String)| (p.0@, p.1@)) =~= Seq::empty());
        lemma_prepend_nil(dec_pair_items(xv, category, 0));
    }
    while i < xs.len()
        invariant
            i <= xs@.len(),
            xv == json_items_view(*xs),
            dec_pair_items(xv, category, 0) == prepend(out@.map_values(|p: (String, String)| (p.0@, p.1@)), dec_pair_items(xv, category, i as int)),
        decreases xs.len() - i,
    {
        match read_pair(&xs[i], category) {
            Err(e) => {
                return Err(at_index(e, i));
            },
            Ok(x) => {
                let ghost before = out@.map_values(|p: (String, String)| (p.0@, p.1@));
                proof {
                    lemma_prepend_push(before, (x.0@, x.1@), dec_pair_items(xv, category, i + 1));
                }
                out.push(x);
                proof {
                    assert(out@.map_values(|p: (String, String)| (p.0@, p.1@)) =~= before.push((x.0@, x.1@)));
                }
            },
        }
        i += 1;
    }
    proof {
        lemma_prepend_empty(out@.map_values(|p: (String, String)| (p.0@, p.1@)));
    }
    Ok(out)
}

fn read_texts(j: &Json, category: Category) -> (r: Result<Vec<String>, DecodeError>)
    ensures
        decoded(r, |v: Vec<String>| strings_view(v), dec_texts(json_view(*j), category)),
{
    match j {
        Json::Array(xs) => read_text_items(xs, category),
        _ => Err(shape_error(category, Expected::List)),
    }
}

fn read_pairs(j: &Json, category: Category) -> (r: Result<Vec<(String, String)>, DecodeError>)
    ensures
        decoded(r, |v: Vec<(String, String)>| v@.map_values(|p: (String, String)| (p.0@, p.1@)), dec_pairs(json_view(*j), category)),
{
    match j {
        Json::Array(xs) => read_pair_items(xs, category),
        _ => Err(shape_error(category, Expected::List)),
    }
}

fn read_attr(j: &Json) -> (r: Result<Attr, DecodeError>)
    ensures
        decoded(r, |a: Attr| attr_view(a), dec_attr(json_view(*j))),
{
    match j {
        Json::Array(xs) => if xs.len() == 3 {
            let a = match read_text(&xs[0], Category::Attr) {
                Ok(a) => a,
                Err(e) => return Err(at_index(e, 0)),
            };
            let b = match read_texts(&xs[1], Category::Attr) {
                Ok(b) => b,
                Err(e) => return Err(at_index(e, 1)),
            };
            let c = match read_pairs(&xs[2], Category::Attr) {
                Ok(c) => c,
                Err(e) => return Err(at_index(e, 2)),
            };
            Ok((a, b, c))
        } else {
            Err(shape_error(Category::Attr, Expected::Tuple(3)))
        },
        _ => Err(shape_error(Category::Attr, Expected::Tuple(3))),
    }
}

fn read_col_width(j: &Json) -> (r: Result<ColWidth, DecodeError>)
    ensures
        decoded(r, |w: ColWidth| w, dec_col_width(json_view(*j))),
{
    match j {
        Json::Object(e) => match tag_of(e) {
            Some(t) => if is_named(t, "ColWidth") {
                match find_key(e, "c") {
                    Some(i) => match &e[i].1 {
                        Json::Number(n) => Ok(ColWidth::ColWidth(n.clone())),
                        Json::Int(k) => Ok(ColWidth::ColWidth(crate::bridge::int_number(*k))),
                        _ => Err(at_name(shape_error(Category::ColWidth, Expected::Number), "c")),
                    },
                    None => Err(shape_error(Category::ColWidth, Expected::Payload)),
                }
            } else if is_named(t, "ColWidthDefault") {
                Ok(ColWidth::ColWidthDefault)
            } else {
                Err(unknown_error(Category::ColWidth, t))
            },
            None => Err(shape_error(Category::ColWidth, Expected::Tagged)),
        },
        _ => Err(shape_error(Category::ColWidth, Expected::Tagged)),
    }
}

fn read_col_spec(j: &Json) -> (r: Result<ColSpec, DecodeError>)
    ensures
        decoded(r, |c: ColSpec| c, dec_col_spec(json_view(*j))),
{
    match j {
        Json::Array(xs) => if xs.len() == 2 {
            let a = match read_alignment(&xs[0]) {
                Ok(a) => a,
                Err(e) => return Err(at_index(e, 0)),
            };
            let w = match read_col_width(&xs[1]) {
                Ok(w) => w,
                Err(e) => return Err(at_index(e, 1)),
            };
            Ok((a, w))
        } else {
            Err(shape_error(Category::ColSpec, Expected::Tuple(2)))
        },
        _ => Err(shape_error(Category::ColSpec, Expected::Tuple(2))),
    }
}

fn read_col_spec_items(xs: &Vec<Json>) -> (r: Result<Vec<ColSpec>, DecodeError>)
    ensures
        decoded(r, |v: Vec<ColSpec>| v@, dec_col_spec_items(json_items_view(*xs), 0)),
{
    let ghost xv = json_items_view(*xs);
    let mut out: Vec<ColSpec> = Vec::new();
    let mut i: usize = 0;
    proof {
        assert(out@ =~= Seq::empty());
        lemma_prepend_nil(dec_col_spec_items(xv, 0));
    }
    while i < xs.len()
        invariant
            i <= xs@.len(),
            xv == json_items_view(*xs),
            dec_col_spec_items(xv, 0) == prepend(out@, dec_col_spec_items(xv, i as int)),
        decreases xs.len() - i,
    {
        match read_col_spec(&xs[i]) {
            Err(e) => {
                return Err(at_index(e, i));
            },
            Ok(x) => {
                let ghost before = out@;
                proof {
                    lemma_prepend_push(before, x, dec_col_spec_items(xv, i + 1));
                }
                out.push(x);
                proof {
                    assert(out@ =~= before.push(x));
                }
            },
        }
        i += 1;
    }
    proof {
        lemma_prepend_empty(out@);
    }
    Ok(out)
}

fn read_col_specs(j: &Json) -> (r: Result<Vec<ColSpec>, DecodeError>)
    ensures
        decoded(r, |v: Vec<ColSpec>| v@, dec_col_specs(json_view(*j))),
{
    match j {
        Json::Array(xs) => read_col_spec_items(xs),
        _ => Err(shape_error(Category::ColSpec, Expected::List)),
    }
}

fn read_list_attributes(j: &Json) -> (r: Result<ListAttributes, DecodeError>)
    ensures
        decoded(r, |l: ListAttributes| l, dec_list_attributes(json_view(*j))),
{
    match j {
        Json::Array(xs) => if xs.len() == 3 {
            let a = match read_int(&xs[0], Category::ListAttributes) {
                Ok(a) => a,
                Err(e) => return Err(at_index(e, 0)),
            };
            let b = match read_style(&xs[1]) {
                Ok(b) => b,
                Err(e) => return Err(at_index(e, 1)),
            };
            let c = match read_delim(&xs[2]) {
                Ok(c) => c,
                Err(e) => return Err(at_index(e, 2)),
            };
            Ok((a, b, c))
        } else {
            Err(shape_error(Category::ListAttributes, Expected::Tuple(3)))
        },
        _ => Err(shape_error(Category::ListAttributes, Expected::Tuple(3))),
    }
}

fn read_version_number(j: &Json) -> (r: Result<u32, DecodeError>)
    ensures
        decoded(r, |x: u32| x, dec_version_number(json_view(*j))),
{
    match j {
        Json::Int(i) => if 0 <= *i && *i <= 0xffff_ffff {
            Ok(*i as u32)
        } else {
            Err(shape_error(Category::Version, Expected::Unsigned))
        },
        _ => Err(shape_error(Category::Version, Expected::Unsigned)),
    }
}

fn read_version_items(xs: &Vec<Json>) -> (r: Result<Vec<u32>, DecodeError>)
    ensures
        decoded(r, |v: Vec<u32>| v@, dec_version_items(json_items_view(*xs), 0)),
{
    let ghost xv = json_items_view(*xs);
    let mut out: Vec<u32> = Vec::new();
    let mut i: usize = 0;
    proof {
        assert(out@ =~= Seq::empty());
        lemma_prepend_nil(dec_version_items(xv, 0));
    }
    while i < xs.len()
        invariant
            i <= xs@.len(),
            xv == json_items_view(*xs),
            dec_version_items(xv, 0) == prepend(out@, dec_version_items(xv, i as int)),
        decreases xs.len() - i,
    {
        match read_version_number(&xs[i]) {
            Err(e) => {
                return Err(at_index(e, i));
            },
            Ok(x) => {
                let ghost before = out@;
                proof {
                    lemma_prepend_push(before, x, dec_version_items(xv, i + 1));
                }
                out.push(x);
                proof {
                    assert(out@ =~= before.push(x));
                }
            },
        }
        i += 1;
    }
    proof {
        lemma_prepend_empty(out@);
    }
    Ok(out)
}

fn read_inlines(j: &Json) -> (r: Result<Vec<Inline>, DecodeError>)
    ensures
        decoded(r, |v: Vec<Inline>| inlines_view(v), dec_inlines(json_view(*j))),
    decreases *j, 0int,
{
    match j {
        Json::Array(xs) => read_inline_items(xs),
        _ => Err(shape_error(Category::Inline, Expected::List)),
    }
}

fn read_inline_items(xs: &Vec<Json>) -> (r: Result<Vec<Inline>, DecodeError>)
    ensures
        decoded(r, |v: Vec<Inline>| inlines_view(v), dec_inline_items(json_items_view(*xs), 0)),
    decreases xs@, 0int,
{
    let ghost xv = json_items_view(*xs);
    let mut out: Vec<Inline> = Vec::new();
    let mut i: usize = 0;
    proof {
        assert(inlines_view(out) =~= Seq::empty());
        lemma_prepend_nil(dec_inline_items(xv, 0));
    }
    while i < xs.len()
        invariant
            i <= xs@.len(),
            xv == json_items_view(*xs),
            dec_inline_items(xv, 0) == prepend(inlines_view(out), dec_inline_items(xv, i as int)),
        decreases xs.len() - i,
    {
        match read_inline(&xs[i]) {
            Err(e) => {
                return Err(at_index(e, i));
            },
            Ok(x) => {
                let ghost before = inlines_view(out);
                proof {
                    lemma_prepend_push(before, inline_view(x), dec_inline_items(xv, i + 1));
                }
                out.push(x);
                proof {
                    assert(inlines_view(out) =~= before.push(inline_view(x)));
                }
            },
        }
        i += 1;
    }
    proof {
        lemma_prepend_empty(inlines_view(out));
    }
    Ok(out)
}

fn read_blocks(j: &Json) -> (r: Result<Vec<Block>, DecodeError>)
    ensures
        decoded(r, |v: Vec<Block>| blocks_view(v), dec_blocks(json_view(*j))),
    decreases *j, 0int,
{
    match j {
        Json::Array(xs) => read_block_items(xs),
        _ => Err(shape_error(Category::Block, Expected::List)),
    }
}

fn read_block_items(xs: &Vec<Json>) -> (r: Result<Vec<Block>, DecodeError>)
    ensures
        decoded(r, |v: Vec<Block>| blocks_view(v), dec_block_items(json_items_view(*xs), 0)),
    decreases xs@, 0int,
{
    let ghost xv = json_items_view(*xs);
    let mut out: Vec<Block> = Vec::new();
    let mut i: usize = 0;
    proof {
        assert(blocks_view(out) =~= Seq::empty());
        lemma_prepend_nil(dec_block_items(xv, 0));
    }
    while i < xs.len()
        invariant
            i <= xs@.len(),
            xv == json_items_view(*xs),
            dec_block_items(xv, 0) == prepend(blocks_view(out), dec_block_items(xv, i as int)),
        decreases xs.len() - i,
    {
        match read_block(&xs[i]) {
            Err(e) => {
                return Err(at_index(e, i));
            },
            Ok(x) => {
                let ghost before = blocks_view(out);
                proof {
                    lemma_prepend_push(before, block_view(x), dec_block_items(xv, i + 1));
                }
                out.push(x);
                proof {
                    assert(blocks_view(out) =~= before.push(block_view(x)));
                }
            },
        }
        i += 1;
    }
    proof {
        lemma_prepend_empty(blocks_view(out));
    }
    Ok(out)
}

fn read_inline_lists(j: &Json) -> (r: Result<Vec<Vec<Inline>>, DecodeError>)
    ensures
        decoded(r, |v: Vec<Vec<Inline>>| inline_lists_view(v), dec_inline_lists(json_view(*j))),
    decreases *j, 0int,
{
    match j {
        Json::Array(xs) => read_inline_list_items(xs),
        _ => Err(shape_error(Category::Block, Expected::List)),
    }
}

fn read_inline_list_items(xs: &Vec<Json>) -> (r: Result<Vec<Vec<Inline>>, DecodeError>)
    ensures
        decoded(r, |v: Vec<Vec<Inline>>| inline_lists_view(v), dec_inline_list_items(json_items_view(*xs), 0)),
    decreases xs@, 0int,
{
    let ghost xv = json_items_view(*xs);
    let mut out: Vec<Vec<Inline>> = Vec::new();
    let mut i: usize = 0;
    proof {
        assert(inline_lists_view(out) =~= Seq::empty());
        lemma_prepend_nil(dec_inline_list_items(xv, 0));
    }
    while i < xs.len()
        invariant
            i <= xs@.len(),
            xv == json_items_view(*xs),
            dec_inline_list_items(xv, 0) == prepend(inline_lists_view(out), dec_inline_list_items(xv, i as int)),
        decreases xs.len() - i,
    {
        match read_inlines(&xs[i]) {
            Err(e) => {
                return Err(at_index(e, i));
            },
            Ok(x) => {
                let ghost before = inline_lists_view(out);
                proof {
                    lemma_prepend_push(before, inlines_view(x), dec_inline_list_items(xv, i + 1));
                }
                out.push(x);
                proof {
                    assert(inline_lists_view(out) =~= before.push(inlines_view(x)));
                }
            },
        }
        i += 1;
    }
    proof {
        lemma_prepend_empty(inline_lists_view(out));
    }
    Ok(out)
}

fn read_block_lists(j: &Json) -> (r: Result<Vec<Vec<Block>>, DecodeError>)
    ensures
        decoded(r, |v: Vec<Vec<Block>>| block_lists_view(v), dec_block_lists(json_view(*j))),
    decreases *j, 0int,
{
    match j {
        Json::Array(xs) => read_block_list_items(xs),
        _ => Err(shape_error(Category::Block, Expected::List)),
    }
}

fn read_block_list_items(xs: &Vec<Json>) -> (r: Result<Vec<Vec<Block>>, DecodeError>)
    ensures
        decoded(r, |v: Vec<Vec<Block>>| block_lists_view(v), dec_block_list_items(json_items_view(*xs), 0)),
    decreases xs@, 0int,
{
    let ghost xv = json_items_view(*xs);
    let mut out: Vec<Vec<Block>> = Vec::new();
    let mut i: usize = 0;
    proof {
        assert(block_lists_view(out) =~= Seq::empty());
        lemma_prepend_nil(dec_block_list_items(xv, 0));
    }
    while i < xs.len()
        invariant
            i <= xs@.len(),
            xv == json_items_view(*xs),
            dec_block_list_items(xv, 0) == prepend(block_lists_view(out), dec_block_list_items(xv, i as int)),
        decreases xs.len() - i,
    {
        match read_blocks(&xs[i]) {
            Err(e) => {
                return Err(at_index(e, i));
            },
            Ok(x) => {
                let ghost before = block_lists_view(out);
                proof {
                    lemma_prepend_push(before, blocks_view(x), dec_block_list_items(xv, i + 1));
                }
                out.push(x);
                proof {
                    assert(block_lists_view(out) =~= before.push(blocks_view(x)));
                }
            },
        }
        i += 1;
    }
    proof {
        lemma_prepend_empty(block_lists_view(out));
    }
    Ok(out)
}

fn read_definitions(j: &Json) -> (r: Result<Vec<(Vec<Inline>, Vec<Vec<Block>>)>, DecodeError>)
    ensures
        decoded(r, |v: Vec<(Vec<Inline>, Vec<Vec<Block>>)>| definitions_view(v), dec_definitions(json_view(*j))),
    decreases *j, 0int,
{
    match j {
        Json::Array(xs) => read_definition_items(xs),
        _ => Err(shape_error(Category::Block, Expected::List)),
    }
}

fn read_definition_items(xs: &Vec<Json>) -> (r: Result<Vec<(Vec<Inline>, Vec<Vec<Block>>)>, DecodeError>)
    ensures
        decoded(r, |v: Vec<(Vec<Inline>, Vec<Vec<Block>>)>| definitions_view(v), dec_definition_items(json_items_view(*xs), 0)),
    decreases xs@, 0int,
{
    let ghost xv = json_items_view(*xs);
    let mut out: Vec<(Vec<Inline>, Vec<Vec<Block>>)> = Vec::new();
    let mut i: usize = 0;
    proof {
        assert(definitions_view(out) =~= Seq::empty());
        lemma_prepend_nil(dec_definition_items(xv, 0));
    }
    while i < xs.len()
        invariant
            i <= xs@.len(),
            xv == json_items_view(*xs),
            dec_definition_items(xv, 0) == prepend(definitions_view(out), dec_definition_items(xv, i as int)),
        decreases xs.len() - i,
    {
        match read_definition(&xs[i]) {
            Err(e) => {
                return Err(at_index(e, i));
            },
            Ok(x) => {
                let ghost before = definitions_view(out);
                proof {
                    lemma_prepend_push(before, (inlines_view(x.0), block_lists_view(x.1)), dec_definition_items(xv, i + 1));
                }
                out.push(x);
                proof {
                    assert(definitions_view(out) =~= before.push((inlines_view(x.0), block_lists_view(x.1))));
                }
            },
        }
        i += 1;
    }
    proof {
        lemma_prepend_empty(definitions_view(out));
    }
    Ok(out)
}

fn read_citations(j: &Json) -> (r: Result<Vec<Citation>, DecodeError>)
    ensures
        decoded(r, |v: Vec<Citation>| citations_view(v), dec_citations(json_view(*j))),
    decreases *j, 0int,
{
    match j {
        Json::Array(xs) => read_citation_items(xs),
        _ => Err(shape_error(Category::Citation, Expected::List)),
    }
}

fn read_citation_items(xs: &Vec<Json>) -> (r: Result<Vec<Citation>, DecodeError>)
    ensures
        decoded(r, |v: Vec<Citation>| citations_view(v), dec_citation_items(json_items_view(*xs), 0)),
    decreases xs@, 0int,
{
    let ghost xv = json_items_view(*xs);
    let mut out: Vec<Citation> = Vec::new();
    let mut i: usize = 0;
    proof {
        assert(citations_view(out) =~= Seq::empty());
        lemma_prepend_nil(dec_citation_items(xv, 0));
    }
    while i < xs.len()
        invariant
            i <= xs@.len(),
            xv == json_items_view(*xs),
            dec_citation_items(xv, 0) == prepend(citations_view(out), dec_citation_items(xv, i as int)),
        decreases xs.len() - i,
    {
        match read_citation(&xs[i]) {
            Err(e) => {
                return Err(at_index(e, i));
            },
            Ok(x) => {
                let ghost before = citations_view(out);
                proof {
                    lemma_prepend_push(before, citation_view(x), dec_citation_items(xv, i + 1));
                }
                out.push(x);
                proof {
                    assert(citations_view(out) =~= before.push(citation_view(x)));
                }
            },
        }
        i += 1;
    }
    proof {
        lemma_prepend_empty(citations_view(out));
    }
    Ok(out)
}

fn read_cells(j: &Json) -> (r: Result<Vec<Cell>, DecodeError>)
    ensures
        decoded(r, |v: Vec<Cell>| cells_view(v), dec_cells(json_view(*j))),
    decreases *j, 0int,
{
    match j {
        Json::Array(xs) => read_cell_items(xs),
        _ => Err(shape_error(Category::Cell, Expected::List)),
    }
}

fn read_cell_items(xs: &Vec<Json>) -> (r: Result<Vec<Cell>, DecodeError>)
    ensures
        decoded(r, |v: Vec<Cell>| cells_view(v), dec_cell_items(json_items_view(*xs), 0)),
    decreases xs@, 0int,
{
    let ghost xv = json_items_view(*xs);
    let mut out: Vec<Cell> = Vec::new();
    let mut i: usize = 0;
    proof {
        assert(cells_view(out) =~= Seq::empty());
        lemma_prepend_nil(dec_cell_items(xv, 0));
    }
    while i < xs.len()
        invariant
            i <= xs@.len(),
            xv == json_items_view(*xs),
            dec_cell_items(xv, 0) == prepend(cells_view(out), dec_cell_items(xv, i as int)),
        decreases xs.len() - i,
    {
        match read_cell(&xs[i]) {
            Err(e) => {
                return Err(at_index(e, i));
            },
            Ok(x) => {
                let ghost before = cells_view(out);
                proof {
                    lemma_prepend_push(before, cell_view(x), dec_cell_items(xv, i + 1));
                }
                out.push(x);
                proof {
                    assert(cells_view(out) =~= before.push(cell_view(x)));
                }
            },
        }
        i += 1;
    }
    proof {
        lemma_prepend_empty(cells_view(out));
    }
    Ok(out)
}

fn read_rows(j: &Json) -> (r: Result<Vec<Row>, DecodeError>)
    ensures
        decoded(r, |v: Vec<Row>| rows_view(v), dec_rows(json_view(*j))),
    decreases *j, 0int,
{
    match j {
        Json::Array(xs) => read_row_items(xs),
        _ => Err(shape_error(Category::Row, Expected::List)),
    }
}

fn read_row_items(xs: &Vec<Json>) -> (r: Result<Vec<Row>, DecodeError>)
    ensures
        decoded(r, |v: Vec<Row>| rows_view(v), dec_row_items(json_items_view(*xs), 0)),
    decreases xs@, 0int,
{
    let ghost xv = json_items_view(*xs);
    let mut out: Vec<Row> = Vec::new();
    let mut i: usize = 0;
    proof {
        assert(rows_view(out) =~= Seq::empty());
        lemma_prepend_nil(dec_row_items(xv, 0));
    }
    while i < xs.len()
        invariant
            i <= xs@.len(),
            xv == json_items_view(*xs),
            dec_row_items(xv, 0) == prepend(rows_view(out), dec_row_items(xv, i as int)),
        decreases xs.len() - i,
    {
        match read_row(&xs[i]) {
            Err(e) => {
                return Err(at_index(e, i));
            },
            Ok(x) => {
                let ghost before = rows_view(out);
                proof {
                    lemma_prepend_push(before, row_view(x), dec_row_items(xv, i + 1));
                }
                out.push(x);
                proof {
                    assert(rows_view(out) =~= before.push(row_view(x)));
                }
            },
        }
        i += 1;
    }
    proof {
        lemma_prepend_empty(rows_view(out));
    }
    Ok(out)
}

fn read_bodies(j: &Json) -> (r: Result<Vec<TableBody>, DecodeError>)
    ensures
        decoded(r, |v: Vec<TableBody>| bodies_view(v), dec_bodies(json_view(*j))),
    decreases *j, 0int,
{
    match j {
        Json::Array(xs) => read_body_items(xs),
        _ => Err(shape_error(Category::TableBody, Expected::List)),
    }
}

fn read_body_items(xs: &Vec<Json>) -> (r: Result<Vec<TableBody>, DecodeError>)
    ensures
        decoded(r, |v: Vec<TableBody>| bodies_view(v), dec_body_items(json_items_view(*xs), 0)),
    decreases xs@, 0int,
{
    let ghost xv = json_items_view(*xs);
    let mut out: Vec<TableBody> = Vec::new();
    let mut i: usize = 0;
    proof {
        assert(bodies_view(out) =~= Seq::empty());
        lemma_prepend_nil(dec_body_items(xv, 0));
    }
    while i < xs.len()
        invariant
            i <= xs@.len(),
            xv == json_items_view(*xs),
            dec_body_items(xv, 0) == prepend(bodies_view(out), dec_body_items(xv, i as int)),
        decreases xs.len() - i,
    {
        match read_body(&xs[i]) {
            Err(e) => {
                return Err(at_index(e, i));
            },
            Ok(x) => {
                let ghost before = bodies_view(out);
                proof {
                    lemma_prepend_push(before, body_view(x), dec_body_items(xv, i + 1));
                }
                out.push(x);
                proof {
                    assert(bodies_view(out) =~= before.push(body_view(x)));
                }
            },
        }
        i += 1;
    }
    proof {
        lemma_prepend_empty(bodies_view(out));
    }
    Ok(out)
}

fn read_meta_values(j: &Json) -> (r: Result<Vec<MetaValue>, DecodeError>)
    ensures
        decoded(r, |v: Vec<MetaValue>| meta_values_view(v), dec_meta_values(json_view(*j))),
    decreases *j, 0int,
{
    match j {
        Json::Array(xs) => read_meta_value_items(xs),
        _ => Err(shape_error(Category::MetaValue, Expected::List)),
    }
}

fn read_meta_value_items(xs: &Vec<Json>) -> (r: Result<Vec<MetaValue>, DecodeError>)
    ensures
        decoded(r, |v: Vec<MetaValue>| meta_values_view(v), dec_meta_value_items(json_items_view(*xs), 0)),
    decreases xs@, 0int,
{
    let ghost xv = json_items_view(*xs);
    let mut out: Vec<MetaValue> = Vec::new();
    let mut i: usize = 0;
    proof {
        assert(meta_values_view(out) =~= Seq::empty());
        lemma_prepend_nil(dec_meta_value_items(xv, 0));
    }
    while i < xs.len()
        invariant
            i <= xs@.len(),
            xv == json_items_view(*xs),
            dec_meta_value_items(xv, 0) == prepend(meta_values_view(out), dec_meta_value_items(xv, i as int)),
        decreases xs.len() - i,
    {
        match read_meta_value(&xs[i]) {
            Err(e) => {
                return Err(at_index(e, i));
            },
            Ok(x) => {
                let ghost before = meta_values_view(out);
                proof {
                    lemma_prepend_push(before, meta_value_view(x), dec_meta_value_items(xv, i + 1));
                }
                out.push(x);
                proof {
                    assert(meta_values_view(out) =~= before.push(meta_value_view(x)));
                }
            },
        }
        i += 1;
    }
    proof {
        lemma_prepend_empty(meta_values_view(out));
    }
    Ok(out)
}

fn read_definition(j: &Json) -> (r: Result<(Vec<Inline>, Vec<Vec<Block>>), DecodeError>)
    ensures
        decoded(r, |x: (Vec<Inline>, Vec<Vec<Block>>)| (inlines_view(x.0), block_lists_view(x.1)), dec_definition(json_view(*j))),
    decreases *j, 0int,
{
    match j {
        Json::Array(xs) => if xs.len() == 2 {
            let a = match read_inlines(&xs[0]) {
                Ok(x) => x,
                Err(e) => return Err(at_index(e, 0)),
            };
            let b = match read_block_lists(&xs[1]) {
                Ok(x) => x,
                Err(e) => return Err(at_index(e, 1)),
            };
            Ok((a, b))
        } else {
            Err(shape_error(Category::Block, Expected::Tuple(2)))
        },
        _ => Err(shape_error(Category::Block, Expected::Tuple(2))),
    }
}

fn read_cell(j: &Json) -> (r: Result<Cell, DecodeError>)
    ensures
        decoded(r, |x: Cell| cell_view(x), dec_cell(json_view(*j))),
    decreases *j, 0int,
{
    match j {
        Json::Array(xs) => if xs.len() == 5 {
            let a = match read_attr(&xs[0]) {
                Ok(x) => x,
                Err(e) => return Err(at_index(e, 0)),
            };
            let al = match read_alignment(&xs[1]) {
                Ok(x) => x,
                Err(e) => return Err(at_index(e, 1)),
            };
            let rs = match read_int(&xs[2], Category::Cell) {
                Ok(x) => x,
                Err(e) => return Err(at_index(e, 2)),
            };
            let cs = match read_int(&xs[3], Category::Cell) {
                Ok(x) => x,
                Err(e) => return Err(at_index(e, 3)),
            };
            let b = match read_blocks(&xs[4]) {
                Ok(x) => x,
                Err(e) => return Err(at_index(e, 4)),
            };
            Ok((a, al, rs, cs, b))
        } else {
            Err(shape_error(Category::Cell, Expected::Tuple(5)))
        },
        _ => Err(shape_error(Category::Cell, Expected::Tuple(5))),
    }
}

fn read_row(j: &Json) -> (r: Result<Row, DecodeError>)
    ensures
        decoded(r, |x: Row| row_view(x), dec_row(json_view(*j))),
    decreases *j, 0int,
{
    match j {
        Json::Array(xs) => if xs.len() == 2 {
            let a = match read_attr(&xs[0]) {
                Ok(x) => x,
                Err(e) => return Err(at_index(e, 0)),
            };
            let c = match read_cells(&xs[1]) {
                Ok(x) => x,
                Err(e) => return Err(at_index(e, 1)),
            };
            Ok((a, c))
        } else {
            Err(shape_error(Category::Row, Expected::Tuple(2)))
        },
        _ => Err(shape_error(Category::Row, Expected::Tuple(2))),
    }
}

fn read_head_or_foot(j: &Json, category: Category) -> (r: Result<(Attr, Vec<Row>), DecodeError>)
    ensures
        decoded(r, |x: (Attr, Vec<Row>)| (attr_view(x.0), rows_view(x.1)), dec_head_or_foot(json_view(*j), category)),
    decreases *j, 0int,
{
    match j {
        Json::Array(xs) => if xs.len() == 2 {
            let a = match read_attr(&xs[0]) {
                Ok(x) => x,
                Err(e) => return Err(at_index(e, 0)),
            };
            let rows = match read_rows(&xs[1]) {
                Ok(x) => x,
                Err(e) => return Err(at_index(e, 1)),
            };
            Ok((a, rows))
        } else {
            Err(shape_error(category, Expected::Tuple(2)))
        },
        _ => Err(shape_error(category, Expected::Tuple(2))),
    }
}

fn read_body(j: &Json) -> (r: Result<TableBody, DecodeError>)
    ensures
        decoded(r, |x: TableBody| body_view(x), dec_body(json_view(*j))),
    decreases *j, 0int,
{
    match j {
        Json::Array(xs) => if xs.len() == 4 {
            let a = match read_attr(&xs[0]) {
                Ok(x) => x,
                Err(e) => return Err(at_index(e, 0)),
            };
            let n = match read_int(&xs[1], Category::TableBody) {
                Ok(x) => x,
                Err(e) => return Err(at_index(e, 1)),
            };
            let h = match read_rows(&xs[2]) {
                Ok(x) => x,
                Err(e) => return Err(at_index(e, 2)),
            };
            let rows = match read_rows(&xs[3]) {
                Ok(x) => x,
                Err(e) => return Err(at_index(e, 3)),
            };
            Ok((a, n, h, rows))
        } else {
            Err(shape_error(Category::TableBody, Expected::Tuple(4)))
        },
        _ => Err(shape_error(Category::TableBody, Expected::Tuple(4))),
    }
}

fn read_caption(j: &Json) -> (r: Result<Caption, DecodeError>)
    ensures
        decoded(r, |c: Caption| caption_view(c), dec_caption(json_view(*j))),
    decreases *j, 0int,
{
    match j {
        Json::Array(xs) => if xs.len() == 2 {
            let short = match &xs[0] {
                Json::Null => None,
                Json::Array(_) => match read_inlines(&xs[0]) {
                    Ok(s) => Some(s),
                    Err(e) => return Err(at_index(e, 0)),
                },
                _ => return Err(at_index(shape_error(Category::Caption, Expected::ListOrNull), 0)),
            };
            let blocks = match read_blocks(&xs[1]) {
                Ok(b) => b,
                Err(e) => return Err(at_index(e, 1)),
            };
            Ok((short, blocks))
        } else {
            Err(shape_error(Category::Caption, Expected::Tuple(2)))
        },
        _ => Err(shape_error(Category::Caption, Expected::Tuple(2))),
    }
}

/// A citation: an object with its six fields under their names.
fn read_citation(j: &Json) -> (r: Result<Citation, DecodeError>)
    ensures
        decoded(r, |c: Citation| citation_view(c), dec_citation(json_view(*j))),
    decreases *j, 0int,
{
    match j {
        Json::Object(e) => {
            let id = match find_key(e, "citationId") {
                Some(i) => match read_text(&e[i].1, Category::Citation) {
                    Ok(x) => x,
                    Err(err) => return Err(at_name(err, "citationId")),
                },
                None => return Err(at_name(shape_error(Category::Citation, Expected::Field), "citationId")),
            };
            let prefix = match find_key(e, "citationPrefix") {
                Some(i) => match read_inlines(&e[i].1) {
                    Ok(x) => x,
                    Err(err) => return Err(at_name(err, "citationPrefix")),
                },
                None => return Err(at_name(shape_error(Category::Citation, Expected::Field), "citationPrefix")),
            };
            let suffix = match find_key(e, "citationSuffix") {
                Some(i) => match read_inlines(&e[i].1) {
                    Ok(x) => x,
                    Err(err) => return Err(at_name(err, "citationSuffix")),
                },
                None => return Err(at_name(shape_error(Category::Citation, Expected::Field), "citationSuffix")),
            };
            let mode = match find_key(e, "citationMode") {
                Some(i) => match read_mode(&e[i].1) {
                    Ok(x) => x,
                    Err(err) => return Err(at_name(err, "citationMode")),
                },
                None => return Err(at_name(shape_error(Category::Citation, Expected::Field), "citationMode")),
            };
            let note_num = match find_key(e, "citationNoteNum") {
                Some(i) => match read_int(&e[i].1, Category::Citation) {
                    Ok(x) => x,
                    Err(err) => return Err(at_name(err, "citationNoteNum")),
                },
                None => return Err(at_name(shape_error(Category::Citation, Expected::Field), "citationNoteNum")),
            };
            let hash = match find_key(e, "citationHash") {
                Some(i) => match read_int(&e[i].1, Category::Citation) {
                    Ok(x) => x,
                    Err(err) => return Err(at_name(err, "citationHash")),
                },
                None => return Err(at_name(shape_error(Category::Citation, Expected::Field), "citationHash")),
            };
            Ok(
                Citation {
                    citationId: id,
                    citationPrefix: prefix,
                    citationSuffix: suffix,
                    citationMode: mode,
                    citationNoteNum: note_num,
                    citationHash: hash,
                },
            )
        },
        _ => Err(shape_error(Category::Citation, Expected::Object)),
    }
}

fn read_meta(j: &Json) -> (r: Result<Meta, DecodeError>)
    ensures
        decoded(r, |m: Meta| meta_view(m), dec_meta(json_view(*j))),
    decreases *j, 0int,
{
    match j {
        Json::Object(e) => match read_meta_entries(e) {
            Ok(m) => Ok(sort_meta(m)),
            Err(x) => Err(x),
        },
        _ => Err(shape_error(Category::Meta, Expected::Object)),
    }
}

fn read_meta_entries(e: &Vec<(String, Json)>) -> (r: Result<Meta, DecodeError>)
    ensures
        decoded(r, |m: Meta| meta_view(m), dec_meta_entries(json_entries_view(*e), 0)),
    decreases e@, 0int,
{
    let ghost ev = json_entries_view(*e);
    let mut out: Meta = Vec::new();
    let mut i: usize = 0;
    proof {
        assert(meta_view(out) =~= Seq::empty());
        lemma_prepend_nil(dec_meta_entries(ev, 0));
    }
    while i < e.len()
        invariant
            i <= e@.len(),
            ev == json_entries_view(*e),
            dec_meta_entries(ev, 0) == prepend(meta_view(out), dec_meta_entries(ev, i as int)),
        decreases e.len() - i,
    {
        match read_meta_value(&e[i].1) {
            Err(err) => {
                return Err(at_name(err, e[i].0.as_str()));
            },
            Ok(x) => {
                let ghost before = meta_view(out);
                proof {
                    lemma_prepend_push(before, (e@[i as int].0@, meta_value_view(x)), dec_meta_entries(ev, i + 1));
                }
                out.push((e[i].0.clone(), x));
                proof {
                    assert(meta_view(out) =~= before.push((e@[i as int].0@, meta_value_view(x))));
                }
            },
        }
        i += 1;
    }
    proof {
        lemma_prepend_empty(meta_view(out));
    }
    Ok(out)
}

fn read_meta_value(j: &Json) -> (r: Result<MetaValue, DecodeError>)
    ensures
        decoded(r, |m: MetaValue| meta_value_view(m), dec_meta_value(json_view(*j))),
    decreases *j, 0int,
{
    match j {
        Json::Object(e) => match tag_of(e) {
            None => Err(shape_error(Category::MetaValue, Expected::Tagged)),
            Some(t) => match meta_kind_named(t) {
                None => Err(unknown_error(Category::MetaValue, t)),
                Some(k) => match find_key(e, "c") {
                    None => Err(shape_error(Category::MetaValue, Expected::Payload)),
                    Some(i) => match read_meta_with(k, &e[i].1) {
                        Ok(m) => Ok(m),
                        Err(err) => Err(at_name(err, "c")),
                    },
                },
            },
        },
        _ => Err(shape_error(Category::MetaValue, Expected::Tagged)),
    }
}

fn read_meta_with(k: MetaKind, c: &Json) -> (r: Result<MetaValue, DecodeError>)
    ensures
        decoded(r, |m: MetaValue| meta_value_view(m), dec_meta_with(k, json_view(*c))),
    decreases *c, 1int,
{
    match k {
        MetaKind::MetaMap => match read_meta(c) {
            Ok(m) => Ok(MetaValue::MetaMap(m)),
            Err(e) => Err(e),
        },
        MetaKind::MetaList => match read_meta_values(c) {
            Ok(m) => Ok(MetaValue::MetaList(m)),
            Err(e) => Err(e),
        },
        MetaKind::MetaBool => match c {
            Json::Bool(b) => Ok(MetaValue::MetaBool(*b)),
            _ => Err(shape_error(Category::MetaValue, Expected::Bool)),
        },
        MetaKind::MetaString => match read_text(c, Category::MetaValue) {
            Ok(s) => Ok(MetaValue::MetaString(s)),
            Err(e) => Err(e),
        },
        MetaKind::MetaInlines => match read_inlines(c) {
            Ok(s) => Ok(MetaValue::MetaInlines(s)),
            Err(e) => Err(e),
        },
        MetaKind::MetaBlocks => match read_blocks(c) {
            Ok(s) => Ok(MetaValue::MetaBlocks(s)),
            Err(e) => Err(e),
        },
    }
}

fn read_inline(j: &Json) -> (r: Result<Inline, DecodeError>)
    ensures
        decoded(r, |i: Inline| inline_view(i), dec_inline(json_view(*j))),
    decreases *j, 0int,
{
    match j {
        Json::Object(e) => match tag_of(e) {
            None => Err(shape_error(Category::Inline, Expected::Tagged)),
            Some(t) => match inline_kind_named(t) {
                None => Err(unknown_error(Category::Inline, t)),
                Some(k) => if k == InlineKind::Space {
                    Ok(Inline::Space)
                } else if k == InlineKind::SoftBreak {
                    Ok(Inline::SoftBreak)
                } else if k == InlineKind::LineBreak {
                    Ok(Inline::LineBreak)
                } else {
                    match find_key(e, "c") {
                        None => Err(shape_error(Category::Inline, Expected::Payload)),
                        Some(i) => match read_inline_with(k, &e[i].1) {
                            Ok(x) => Ok(x),
                            Err(err) => Err(at_name(err, "c")),
                        },
                    }
                },
            },
        },
        _ => Err(shape_error(Category::Inline, Expected::Tagged)),
    }
}

#[verifier::rlimit(50)]
fn read_inline_with(k: InlineKind, c: &Json) -> (r: Result<Inline, DecodeError>)
    requires
        !inline_is_unit(k),
    ensures
        decoded(r, |i: Inline| inline_view(i), dec_inline_with(k, json_view(*c))),
    decreases *c, 1int,
{
    match k {
        InlineKind::Str => match read_text(c, Category::Inline) {
            Ok(s) => Ok(Inline::Str(s)),
            Err(e) => Err(e),
        },
        InlineKind::Emph => match read_inlines(c) {
            Ok(s) => Ok(Inline::Emph(s)),
            Err(e) => Err(e),
        },
        InlineKind::Underline => match read_inlines(c) {
            Ok(s) => Ok(Inline::Underline(s)),
            Err(e) => Err(e),
        },
        InlineKind::Strong => match read_inlines(c) {
            Ok(s) => Ok(Inline::Strong(s)),
            Err(e) => Err(e),
        },
        InlineKind::Strikeout => match read_inlines(c) {
            Ok(s) => Ok(Inline::Strikeout(s)),
            Err(e) => Err(e),
        },
        InlineKind::Superscript => match read_inlines(c) {
            Ok(s) => Ok(Inline::Superscript(s)),
            Err(e) => Err(e),
        },
        InlineKind::Subscript => match read_inlines(c) {
            Ok(s) => Ok(Inline::Subscript(s)),
            Err(e) => Err(e),
        },
        InlineKind::SmallCaps => match read_inlines(c) {
            Ok(s) => Ok(Inline::SmallCaps(s)),
            Err(e) => Err(e),
        },
        InlineKind::Note => match read_blocks(c) {
            Ok(s) => Ok(Inline::Note(s)),
            Err(e) => Err(e),
        },
        InlineKind::Quoted => match c {
            Json::Array(xs) => if xs.len() == 2 {
                let q = match read_quote(&xs[0]) {
                    Ok(x) => x,
                    Err(e) => return Err(at_index(e, 0)),
                };
                let s = match read_inlines(&xs[1]) {
                    Ok(x) => x,
                    Err(e) => return Err(at_index(e, 1)),
                };
                Ok(Inline::Quoted(q, s))
            } else {
                Err(shape_error(Category::Inline, Expected::Tuple(2)))
            },
            _ => Err(shape_error(Category::Inline, Expected::Tuple(2))),
        },
        InlineKind::Cite => match c {
            Json::Array(xs) => if xs.len() == 2 {
                let cs = match read_citations(&xs[0]) {
                    Ok(x) => x,
                    Err(e) => return Err(at_index(e, 0)),
                };
                let s = match read_inlines(&xs[1]) {
                    Ok(x) => x,
                    Err(e) => return Err(at_index(e, 1)),
                };
                Ok(Inline::Cite(cs, s))
            } else {
                Err(shape_error(Category::Inline, Expected::Tuple(2)))
            },
            _ => Err(shape_error(Category::Inline, Expected::Tuple(2))),
        },
        InlineKind::Code => match c {
            Json::Array(xs) => if xs.len() == 2 {
                let a = match read_attr(&xs[0]) {
                    Ok(x) => x,
                    Err(e) => return Err(at_index(e, 0)),
                };
                let s = match read_text(&xs[1], Category::Inline) {
                    Ok(x) => x,
                    Err(e) => return Err(at_index(e, 1)),
                };
                Ok(Inline::Code(a, s))
            } else {
                Err(shape_error(Category::Inline, Expected::Tuple(2)))
            },
            _ => Err(shape_error(Category::Inline, Expected::Tuple(2))),
        },
        InlineKind::Math => match c {
            Json::Array(xs) => if xs.len() == 2 {
                let m = match read_math(&xs[0]) {
                    Ok(x) => x,
                    Err(e) => return Err(at_index(e, 0)),
                };
                let s = match read_text(&xs[1], Category::Inline) {
                    Ok(x) => x,
                    Err(e) => return Err(at_index(e, 1)),
                };
                Ok(Inline::Math(m, s))
            } else {
                Err(shape_error(Category::Inline, Expected::Tuple(2)))
            },
            _ => Err(shape_error(Category::Inline, Expected::Tuple(2))),
        },
        InlineKind::RawInline => match c {
            Json::Array(xs) => if xs.len() == 2 {
                let f = match read_text(&xs[0], Category::Format) {
                    Ok(x) => x,
                    Err(e) => return Err(at_index(e, 0)),
                };
                let s = match read_text(&xs[1], Category::Inline) {
                    Ok(x) => x,
                    Err(e) => return Err(at_index(e, 1)),
                };
                Ok(Inline::RawInline(Format(f), s))
            } else {
                Err(shape_error(Category::Inline, Expected::Tuple(2)))
            },
            _ => Err(shape_error(Category::Inline, Expected::Tuple(2))),
        },
        InlineKind::Link => match c {
            Json::Array(xs) => if xs.len() == 3 {
                let a = match read_attr(&xs[0]) {
                    Ok(x) => x,
                    Err(e) => return Err(at_index(e, 0)),
                };
                let s = match read_inlines(&xs[1]) {
                    Ok(x) => x,
                    Err(e) => return Err(at_index(e, 1)),
                };
                let t = match read_pair(&xs[2], Category::Target) {
                    Ok(x) => x,
                    Err(e) => return Err(at_index(e, 2)),
                };
                Ok(Inline::Link(a, s, t))
            } else {
                Err(shape_error(Category::Inline, Expected::Tuple(3)))
            },
            _ => Err(shape_error(Category::Inline, Expected::Tuple(3))),
        },
        InlineKind::Image => match c {
            Json::Array(xs) => if xs.len() == 3 {
                let a = match read_attr(&xs[0]) {
                    Ok(x) => x,
                    Err(e) => return Err(at_index(e, 0)),
                };
                let s = match read_inlines(&xs[1]) {
                    Ok(x) => x,
                    Err(e) => return Err(at_index(e, 1)),
                };
                let t = match read_pair(&xs[2], Category::Target) {
                    Ok(x) => x,
                    Err(e) => return Err(at_index(e, 2)),
                };
                Ok(Inline::Image(a, s, t))
            } else {
                Err(shape_error(Category::Inline, Expected::Tuple(3)))
            },
            _ => Err(shape_error(Category::Inline, Expected::Tuple(3))),
        },
        InlineKind::Span => match c {
            Json::Array(xs) => if xs.len() == 2 {
                let a = match read_attr(&xs[0]) {
                    Ok(x) => x,
                    Err(e) => return Err(at_index(e, 0)),
                };
                let s = match read_inlines(&xs[1]) {
                    Ok(x) => x,
                    Err(e) => return Err(at_index(e, 1)),
                };
                Ok(Inline::Span(a, s))
            } else {
                Err(shape_error(Category::Inline, Expected::Tuple(2)))
            },
            _ => Err(shape_error(Category::Inline, Expected::Tuple(2))),
        },
        InlineKind::Space => Ok(Inline::Space),
        InlineKind::SoftBreak => Ok(Inline::SoftBreak),
        InlineKind::LineBreak => Ok(Inline::LineBreak),
    }
}

fn read_block(j: &Json) -> (r: Result<Block, DecodeError>)
    ensures
        decoded(r, |b: Block| block_view(b), dec_block(json_view(*j))),
    decreases *j, 0int,
{
    match j {
        Json::Object(e) => match tag_of(e) {
            None => Err(shape_error(Category::Block, Expected::Tagged)),
            Some(t) => match block_kind_named(t) {
                None => Err(unknown_error(Category::Block, t)),
                Some(k) => if k == BlockKind::HorizontalRule {
                    Ok(Block::HorizontalRule)
                } else if k == BlockKind::Null {
                    Ok(Block::Null)
                } else {
                    match find_key(e, "c") {
                        None => Err(shape_error(Category::Block, Expected::Payload)),
                        Some(i) => match read_block_with(k, &e[i].1) {
                            Ok(x) => Ok(x),
                            Err(err) => Err(at_name(err, "c")),
                        },
                    }
                },
            },
        },
        _ => Err(shape_error(Category::Block, Expected::Tagged)),
    }
}

#[verifier::rlimit(50)]
fn read_block_with(k: BlockKind, c: &Json) -> (r: Result<Block, DecodeError>)
    requires
        !block_is_unit(k),
    ensures
        decoded(r, |b: Block| block_view(b), dec_block_with(k, json_view(*c))),
    decreases *c, 1int,
{
    match k {
        BlockKind::Plain => match read_inlines(c) {
            Ok(s) => Ok(Block::Plain(s)),
            Err(e) => Err(e),
        },
        BlockKind::Para => match read_inlines(c) {
            Ok(s) => Ok(Block::Para(s)),
            Err(e) => Err(e),
        },
        BlockKind::LineBlock => match read_inline_lists(c) {
            Ok(s) => Ok(Block::LineBlock(s)),
            Err(e) => Err(e),
        },
        BlockKind::BlockQuote => match read_blocks(c) {
            Ok(s) => Ok(Block::BlockQuote(s)),
            Err(e) => Err(e),
        },
        BlockKind::BulletList => match read_block_lists(c) {
            Ok(s) => Ok(Block::BulletList(s)),
            Err(e) => Err(e),
        },
        BlockKind::DefinitionList => match read_definitions(c) {
            Ok(s) => Ok(Block::DefinitionList(s)),
            Err(e) => Err(e),
        },
        BlockKind::CodeBlock => match c {
            Json::Array(xs) => if xs.len() == 2 {
                let a = match read_attr(&xs[0]) {
                    Ok(x) => x,
                    Err(e) => return Err(at_index(e, 0)),
                };
                let s = match read_text(&xs[1], Category::Block) {
                    Ok(x) => x,
                    Err(e) => return Err(at_index(e, 1)),
                };
                Ok(Block::CodeBlock(a, s))
            } else {
                Err(shape_error(Category::Block, Expected::Tuple(2)))
            },
            _ => Err(shape_error(Category::Block, Expected::Tuple(2))),
        },
        BlockKind::RawBlock => match c {
            Json::Array(xs) => if xs.len() == 2 {
                let f = match read_text(&xs[0], Category::Format) {
                    Ok(x) => x,
                    Err(e) => return Err(at_index(e, 0)),
                };
                let s = match read_text(&xs[1], Category::Block) {
                    Ok(x) => x,
                    Err(e) => return Err(at_index(e, 1)),
                };
                Ok(Block::RawBlock(Format(f), s))
            } else {
                Err(shape_error(Category::Block, Expected::Tuple(2)))
            },
            _ => Err(shape_error(Category::Block, Expected::Tuple(2))),
        },
        BlockKind::OrderedList => match c {
            Json::Array(xs) => if xs.len() == 2 {
                let l = match read_list_attributes(&xs[0]) {
                    Ok(x) => x,
                    Err(e) => return Err(at_index(e, 0)),
                };
                let s = match read_block_lists(&xs[1]) {
                    Ok(x) => x,
                    Err(e) => return Err(at_index(e, 1)),
                };
                Ok(Block::OrderedList(l, s))
            } else {
                Err(shape_error(Category::Block, Expected::Tuple(2)))
            },
            _ => Err(shape_error(Category::Block, Expected::Tuple(2))),
        },
        BlockKind::Figure => match c {
            Json::Array(xs) => if xs.len() == 3 {
                let a = match read_attr(&xs[0]) {
                    Ok(x) => x,
                    Err(e) => return Err(at_index(e, 0)),
                };
                let cap = match read_caption(&xs[1]) {
                    Ok(x) => x,
                    Err(e) => return Err(at_index(e, 1)),
                };
                let s = match read_blocks(&xs[2]) {
                    Ok(x) => x,
                    Err(e) => return Err(at_index(e, 2)),
                };
                Ok(Block::Figure(a, cap, s))
            } else {
                Err(shape_error(Category::Block, Expected::Tuple(3)))
            },
            _ => Err(shape_error(Category::Block, Expected::Tuple(3))),
        },
        BlockKind::Header => match c {
            Json::Array(xs) => if xs.len() == 3 {
                let l = match read_int(&xs[0], Category::Block) {
                    Ok(x) => x,
                    Err(e) => return Err(at_index(e, 0)),
                };
                let a = match read_attr(&xs[1]) {
                    Ok(x) => x,
                    Err(e) => return Err(at_index(e, 1)),
                };
                let s = match read_inlines(&xs[2]) {
                    Ok(x) => x,
                    Err(e) => return Err(at_index(e, 2)),
                };
                Ok(Block::Header(l, a, s))
            } else {
                Err(shape_error(Category::Block, Expected::Tuple(3)))
            },
            _ => Err(shape_error(Category::Block, Expected::Tuple(3))),
        },
        BlockKind::Table => match c {
            Json::Array(xs) => if xs.len() == 6 {
                let a = match read_attr(&xs[0]) {
                    Ok(x) => x,
                    Err(e) => return Err(at_index(e, 0)),
                };
                let cap = match read_caption(&xs[1]) {
                    Ok(x) => x,
                    Err(e) => return Err(at_index(e, 1)),
                };
                let cols = match read_col_specs(&xs[2]) {
                    Ok(x) => x,
                    Err(e) => return Err(at_index(e, 2)),
                };
                let head = match read_head_or_foot(&xs[3], Category::TableHead) {
                    Ok(x) => x,
                    Err(e) => return Err(at_index(e, 3)),
                };
                let bodies = match read_bodies(&xs[4]) {
                    Ok(x) => x,
                    Err(e) => return Err(at_index(e, 4)),
                };
                let foot = match read_head_or_foot(&xs[5], Category::TableFoot) {
                    Ok(x) => x,
                    Err(e) => return Err(at_index(e, 5)),
                };
                Ok(Block::Table(a, cap, cols, head, bodies, foot))
            } else {
                Err(shape_error(Category::Block, Expected::Tuple(6)))
            },
            _ => Err(shape_error(Category::Block, Expected::Tuple(6))),
        },
        BlockKind::Div => match c {
            Json::Array(xs) => if xs.len() == 2 {
                let a = match read_attr(&xs[0]) {
                    Ok(x) => x,
                    Err(e) => return Err(at_index(e, 0)),
                };
                let s = match read_blocks(&xs[1]) {
                    Ok(x) => x,
                    Err(e) => return Err(at_index(e, 1)),
                };
                Ok(Block::Div(a, s))
            } else {
                Err(shape_error(Category::Block, Expected::Tuple(2)))
            },
            _ => Err(shape_error(Category::Block, Expected::Tuple(2))),
        },
        BlockKind::HorizontalRule => Ok(Block::HorizontalRule),
        BlockKind::Null => Ok(Block::Null),
    }
}

/// The major and minor version of a document, where its version field has them.
fn read_version_pair(j: &Json) -> (r: Option<(i64, i64)>)
    ensures
        r == version_of(json_view(*j)),
{
    match j {
        Json::Object(e) => match find_key(e, "pandoc-api-version") {
            Some(i) => match &e[i].1 {
                Json::Array(xs) => if xs.len() >= 2 {
                    proof {
                        let xv = json_items_view(*xs);
                        assert(xv[0] == json_view(xs@[0]));
                        assert(xv[1] == json_view(xs@[1]));
                    }
                    match (&xs[0], &xs[1]) {
                        (Json::Int(a), Json::Int(b)) => Some((*a, *b)),
                        _ => None,
                    }
                } else {
                    None
                },
                _ => None,
            },
            None => None,
        },
        _ => None,
    }
}

/// Reads a document from its wire form. The version is checked first: a document without a
/// version of two integers, or whose version is not supported, is refused before anything else
/// is read.
pub fn read_pandoc(j: &Json) -> (r: Result<Pandoc, DecodeError>)
    ensures
        decoded(r, |d: Pandoc| pandoc_view(d), dec_pandoc(json_view(*j))),
{
    let (major, minor) = match read_version_pair(j) {
        Some(p) => p,
        None => return Err(DecodeError::MissingVersionField),
    };
    if !(major == REQUIRED_MAJOR && minor >= REQUIRED_MINOR) {
        return Err(
            DecodeError::UnsupportedVersion {
                required: (REQUIRED_MAJOR, REQUIRED_MINOR),
                found: (major, minor),
            },
        );
    }
    match j {
        Json::Object(e) => {
            let version = match find_key(e, "pandoc-api-version") {
                Some(i) => match &e[i].1 {
                    Json::Array(xs) => match read_version_items(xs) {
                        Ok(v) => v,
                        Err(err) => return Err(at_name(err, "pandoc-api-version")),
                    },
                    _ => return Err(shape_error(Category::Document, Expected::List)),
                },
                None => return Err(shape_error(Category::Document, Expected::List)),
            };
            let meta = match find_key(e, "meta") {
                Some(i) => match read_meta(&e[i].1) {
                    Ok(m) => m,
                    Err(err) => return Err(at_name(err, "meta")),
                },
                None => return Err(at_name(shape_error(Category::Document, Expected::Field), "meta")),
            };
            let blocks = match find_key(e, "blocks") {
                Some(i) => match read_blocks(&e[i].1) {
                    Ok(b) => b,
                    Err(err) => return Err(at_name(err, "blocks")),
                },
                None => return Err(at_name(shape_error(Category::Document, Expected::Field), "blocks")),
            };
            Ok(Pandoc { meta, blocks, pandoc_api_version: version })
        },
        _ => Err(shape_error(Category::Document, Expected::Object)),
    }
}

/// `a` before `b` in the order of their characters' code points.
fn text_less(a: &String, b: &String) -> (r: bool)
    ensures
        r == text_lt(a@, b@),
{
    let sa = a.as_str();
    let sb = b.as_str();
    let la = sa.unicode_len();
    let lb = sb.unicode_len();
    let mut k: usize = 0;
    while k < la && k < lb
        invariant
            la == a@.len(),
            lb == b@.len(),
            sa@ == a@,
            sb@ == b@,
            k <= la,
            k <= lb,
            text_lt(a@, b@) == text_lt_from(a@, b@, k as int),
        decreases la - k,
    {
        let ca = sa.get_char(k);
        let cb = sb.get_char(k);
        if ca != cb {
            return (ca as u32) < (cb as u32);
        }
        k += 1;
    }
    k < lb
}

/// The entries ordered by key, one per key.
fn sort_meta(entries: Meta) -> (r: Meta)
    ensures
        meta_view(r) == sort_entries(meta_view(entries)),
{
    let ghost all = meta_view(entries);
    let total = entries.len();
    proof {
        assert(all.len() == total);
    }
    let mut rest = entries;
    let mut out: Meta = Vec::new();
    let mut done: usize = 0;
    proof {
        assert(all.subrange(0, 0) =~= Seq::<(Text, crate::view::MetaValueView)>::empty());
        assert(meta_view(out) =~= Seq::<(Text, crate::view::MetaValueView)>::empty());
        assert(meta_view(rest) =~= all.subrange(0, all.len() as int));
    }
    while rest.len() > 0
        invariant
            done <= all.len(),
            all.len() <= usize::MAX,
            meta_view(rest) == all.subrange(done as int, all.len() as int),
            meta_view(out) == sort_entries(all.subrange(0, done as int)),
        decreases rest.len(),
    {
        let ghost before = meta_view(rest);
        let e = rest.remove(0);
        proof {
            assert(before[0] == (e.0@, crate::view::meta_value_view(e.1)));
            assert(meta_view(rest) =~= before.drop_first());
            assert(all.subrange(done as int, all.len() as int)[0] == all[done as int]);
            assert(all.subrange(0, done + 1).drop_last() =~= all.subrange(0, done as int));
            assert(meta_view(rest) =~= all.subrange(done + 1, all.len() as int));
        }
        let ghost sorted = meta_view(out);
        let ghost key: Text = e.0@;
        let ghost ev: (Text, crate::view::MetaValueView) = (key, crate::view::meta_value_view(e.1));
        let mut p: usize = 0;
        let mut go = true;
        while go
            invariant
                p <= out@.len(),
                sorted == meta_view(out),
                key == e.0@,
                ev == (key, crate::view::meta_value_view(e.1)),
                key_position(sorted, ev.0, 0) == key_position(sorted, ev.0, p as int),
                !go ==> key_position(sorted, ev.0, p as int) == p,
            decreases out@.len() - p + (if go { 1int } else { 0int }),
        {
            let less = if p < out.len() {
                let r = text_less(&out[p].0, &e.0);
                proof {
                    assert(r == text_lt(out@[p as int].0@, e.0@));
                    assert(ev.0 == e.0@);
                }
                r
            } else {
                false
            };
            if less {
                proof {
                    assert(sorted[p as int].0 == out@[p as int].0@);
                    assert(text_lt(sorted[p as int].0, ev.0));
                    assert(key_position(sorted, ev.0, p as int) == key_position(sorted, ev.0, p + 1));
                }
                p += 1;
            } else {
                proof {
                    if p < out@.len() {
                        assert(sorted[p as int].0 == out@[p as int].0@);
                        assert(!text_lt(sorted[p as int].0, ev.0));
                    }
                    assert(key_position(sorted, ev.0, p as int) == p);
                }
                go = false;
            }
        }
        proof {
            if p < out@.len() {
                assert(sorted[p as int].0 == out@[p as int].0@);
            }
        }
        if p < out.len() && out[p].0 == e.0 {
            out.set(p, e);
            proof {
                assert(meta_view(out) =~= sorted.update(p as int, ev));
            }
        } else {
            out.insert(p, e);
            proof {
                assert(meta_view(out) =~= sorted.insert(p as int, ev));
            }
        }
        done += 1;
    }
    proof {
        assert(all.subrange(0, done as int) =~= all);
    }
    out
}

} // verus!
