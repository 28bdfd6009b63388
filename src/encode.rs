//! Writing a document as JSON, as the wire form states it.
use vstd::prelude::*;

use crate::json::{array_items, json_items_view, json_view, object_entries, json_entries_view, Json, JsonView};
use crate::model::{
    Alignment, Attr, Block, Caption, Cell, Citation, CitationMode, ColSpec, ColWidth, Inline,
    ListAttributes, ListNumberDelim, ListNumberStyle, MathType, Meta, MetaValue, Pandoc, QuoteType,
    Row, TableBody, Target,
};
use crate::view::{
    Text,
    attr_view, block_lists_view, block_view, blocks_view, bodies_view, caption_view, cells_view,
    citations_view, definitions_view, inline_lists_view, inline_view, inlines_view,
    meta_value_view, meta_values_view, meta_view, pandoc_view, rows_view, strings_view,
    target_view,
};
use crate::wire::{
    alignment_name, bare, block_kind, block_name, delim_name, enc_attr, enc_block,
    enc_block_lists, enc_blocks, enc_bodies, enc_caption, enc_cells, enc_citation, enc_citations,
    enc_col_spec, enc_definitions, enc_inline, enc_inline_lists, enc_inlines, enc_list_attributes,
    enc_meta, enc_meta_value, enc_meta_values, enc_pair, enc_pandoc, enc_rows, enc_texts,
    enc_version, inline_kind, inline_name, math_name, meta_kind, meta_name, mode_name,
    quote_name, style_name, tagged, BlockKind, InlineKind, MetaKind,
};

verus! {

broadcast use {vstd::std_specs::vec::axiom_vec_decreases_to_view, vstd::string::group_string_axioms};

fn text(s: &str) -> (r: String)
    ensures
        r@ == s@,
{
    s.to_string()
}

fn json_text(s: &String) -> (r: Json)
    ensures
        json_view(r) == JsonView::String(s@),
{
    Json::String(s.clone())
}

fn make_tagged(name: String, payload: Json) -> (r: Json)
    ensures
        json_view(r) == tagged(name@, json_view(payload)),
{
    let mut e: Vec<(String, Json)> = Vec::new();
    e.push((text("t"), Json::String(name)));
    e.push((text("c"), payload));
    let r = Json::Object(e);
    assert(crate::json::json_entries_view(e) =~= seq![("t"@, JsonView::String(name@)), ("c"@, json_view(payload))]);
    r
}

fn make_bare(name: String) -> (r: Json)
    ensures
        json_view(r) == bare(name@),
{
    let mut e: Vec<(String, Json)> = Vec::new();
    e.push((text("t"), Json::String(name)));
    let r = Json::Object(e);
    assert(crate::json::json_entries_view(e) =~= seq![("t"@, JsonView::String(name@))]);
    r
}

fn make_array2(a: Json, b: Json) -> (r: Json)
    ensures
        json_view(r) == JsonView::Array(seq![json_view(a), json_view(b)]),
{
    let mut v: Vec<Json> = Vec::new();
    v.push(a);
    v.push(b);
    let r = Json::Array(v);
    assert(json_items_view(v) =~= seq![json_view(a), json_view(b)]);
    r
}

fn make_array3(a: Json, b: Json, c: Json) -> (r: Json)
    ensures
        json_view(r) == JsonView::Array(seq![json_view(a), json_view(b), json_view(c)]),
{
    let mut v: Vec<Json> = Vec::new();
    v.push(a);
    v.push(b);
    v.push(c);
    let r = Json::Array(v);
    assert(json_items_view(v) =~= seq![json_view(a), json_view(b), json_view(c)]);
    r
}

fn make_array4(a: Json, b: Json, c: Json, d: Json) -> (r: Json)
    ensures
        json_view(r) == JsonView::Array(seq![json_view(a), json_view(b), json_view(c), json_view(d)]),
{
    let mut v: Vec<Json> = Vec::new();
    v.push(a);
    v.push(b);
    v.push(c);
    v.push(d);
    let r = Json::Array(v);
    assert(json_items_view(v) =~= seq![json_view(a), json_view(b), json_view(c), json_view(d)]);
    r
}

fn make_array5(a: Json, b: Json, c: Json, d: Json, e: Json) -> (r: Json)
    ensures
        json_view(r) == JsonView::Array(
            seq![json_view(a), json_view(b), json_view(c), json_view(d), json_view(e)],
        ),
{
    let mut v: Vec<Json> = Vec::new();
    v.push(a);
    v.push(b);
    v.push(c);
    v.push(d);
    v.push(e);
    let r = Json::Array(v);
    assert(json_items_view(v) =~= seq![json_view(a), json_view(b), json_view(c), json_view(d), json_view(e)]);
    r
}

fn make_array6(a: Json, b: Json, c: Json, d: Json, e: Json, f: Json) -> (r: Json)
    ensures
        json_view(r) == JsonView::Array(
            seq![json_view(a), json_view(b), json_view(c), json_view(d), json_view(e), json_view(f)],
        ),
{
    let mut v: Vec<Json> = Vec::new();
    v.push(a);
    v.push(b);
    v.push(c);
    v.push(d);
    v.push(e);
    v.push(f);
    let r = Json::Array(v);
    assert(json_items_view(v) =~= seq![json_view(a), json_view(b), json_view(c), json_view(d), json_view(e), json_view(f)]);
    r
}

fn meta_tag(k: MetaKind) -> (r: String)
    ensures
        r@ == meta_name(k),
{
    match k {
        MetaKind::MetaMap => text("MetaMap"),
        MetaKind::MetaList => text("MetaList"),
        MetaKind::MetaBool => text("MetaBool"),
        MetaKind::MetaString => text("MetaString"),
        MetaKind::MetaInlines => text("MetaInlines"),
        MetaKind::MetaBlocks => text("MetaBlocks"),
    }
}

fn block_tag(k: BlockKind) -> (r: String)
    ensures
        r@ == block_name(k),
{
    match k {
        BlockKind::Plain => text("Plain"),
        BlockKind::Para => text("Para"),
        BlockKind::LineBlock => text("LineBlock"),
        BlockKind::CodeBlock => text("CodeBlock"),
        BlockKind::RawBlock => text("RawBlock"),
        BlockKind::BlockQuote => text("BlockQuote"),
        BlockKind::OrderedList => text("OrderedList"),
        BlockKind::BulletList => text("BulletList"),
        BlockKind::DefinitionList => text("DefinitionList"),
        BlockKind::Figure => text("Figure"),
        BlockKind::Header => text("Header"),
        BlockKind::HorizontalRule => text("HorizontalRule"),
        BlockKind::Table => text("Table"),
        BlockKind::Div => text("Div"),
        BlockKind::Null => text("Null"),
    }
}

fn inline_tag(k: InlineKind) -> (r: String)
    ensures
        r@ == inline_name(k),
{
    match k {
        InlineKind::Str => text("Str"),
        InlineKind::Emph => text("Emph"),
        InlineKind::Underline => text("Underline"),
        InlineKind::Strong => text("Strong"),
        InlineKind::Strikeout => text("Strikeout"),
        InlineKind::Superscript => text("Superscript"),
        InlineKind::Subscript => text("Subscript"),
        InlineKind::SmallCaps => text("SmallCaps"),
        InlineKind::Quoted => text("Quoted"),
        InlineKind::Cite => text("Cite"),
        InlineKind::Code => text("Code"),
        InlineKind::Space => text("Space"),
        InlineKind::SoftBreak => text("SoftBreak"),
        InlineKind::LineBreak => text("LineBreak"),
        InlineKind::Math => text("Math"),
        InlineKind::RawInline => text("RawInline"),
        InlineKind::Link => text("Link"),
        InlineKind::Image => text("Image"),
        InlineKind::Note => text("Note"),
        InlineKind::Span => text("Span"),
    }
}

fn alignment_tag(k: Alignment) -> (r: String)
    ensures
        r@ == alignment_name(k),
{
    match k {
        Alignment::AlignLeft => text("AlignLeft"),
        Alignment::AlignRight => text("AlignRight"),
        Alignment::AlignCenter => text("AlignCenter"),
        Alignment::AlignDefault => text("AlignDefault"),
    }
}

fn style_tag(k: ListNumberStyle) -> (r: String)
    ensures
        r@ == style_name(k),
{
    match k {
        ListNumberStyle::DefaultStyle => text("DefaultStyle"),
        ListNumberStyle::Example => text("Example"),
        ListNumberStyle::Decimal => text("Decimal"),
        ListNumberStyle::LowerRoman => text("LowerRoman"),
        ListNumberStyle::UpperRoman => text("UpperRoman"),
        ListNumberStyle::LowerAlpha => text("LowerAlpha"),
        ListNumberStyle::UpperAlpha => text("UpperAlpha"),
    }
}

fn delim_tag(k: ListNumberDelim) -> (r: String)
    ensures
        r@ == delim_name(k),
{
    match k {
        ListNumberDelim::DefaultDelim => text("DefaultDelim"),
        ListNumberDelim::Period => text("Period"),
        ListNumberDelim::OneParen => text("OneParen"),
        ListNumberDelim::TwoParens => text("TwoParens"),
    }
}

fn quote_tag(k: QuoteType) -> (r: String)
    ensures
        r@ == quote_name(k),
{
    match k {
        QuoteType::SingleQuote => text("SingleQuote"),
        QuoteType::DoubleQuote => text("DoubleQuote"),
    }
}

fn math_tag(k: MathType) -> (r: String)
    ensures
        r@ == math_name(k),
{
    match k {
        MathType::DisplayMath => text("DisplayMath"),
        MathType::InlineMath => text("InlineMath"),
    }
}

fn mode_tag(k: CitationMode) -> (r: String)
    ensures
        r@ == mode_name(k),
{
    match k {
        CitationMode::AuthorInText => text("AuthorInText"),
        CitationMode::SuppressAuthor => text("SuppressAuthor"),
        CitationMode::NormalCitation => text("NormalCitation"),
    }
}

fn write_texts(v: &Vec<String>) -> (r: Json)
    ensures
        json_view(r) == enc_texts(strings_view(*v)),
{
    let mut out: Vec<Json> = Vec::new();
    let mut i: usize = 0;
    while i < v.len()
        invariant
            i <= v.len(),
            out@.len() == i,
            forall|k: int| 0 <= k < i ==> json_view(#[trigger] out@[k]) == JsonView::String(v@[k]@),
        decreases v.len() - i,
    {
        let x = &v[i];
        let j = json_text(x);
        out.push(j);
        i += 1;
    }
    let r = Json::Array(out);
    assert(json_items_view(out) =~= array_items(enc_texts(strings_view(*v))));
    r
}

fn write_pair(p: &(String, String)) -> (r: Json)
    ensures
        json_view(r) == enc_pair((p.0@, p.1@)),
{
    make_array2(json_text(&p.0), json_text(&p.1))
}

fn write_pairs(v: &Vec<(String, String)>) -> (r: Json)
    ensures
        json_view(r) == JsonView::Array(v@.map_values(|p: (String, String)| (p.0@, p.1@)).map_values(|p: (Text, Text)| enc_pair(p))),
{
    let mut out: Vec<Json> = Vec::new();
    let mut i: usize = 0;
    while i < v.len()
        invariant
            i <= v.len(),
            out@.len() == i,
            forall|k: int| 0 <= k < i ==> json_view(#[trigger] out@[k]) == enc_pair((v@[k].0@, v@[k].1@)),
        decreases v.len() - i,
    {
        let x = &v[i];
        let j = write_pair(x);
        out.push(j);
        i += 1;
    }
    let r = Json::Array(out);
    assert(json_items_view(out) =~= v@.map_values(|p: (String, String)| (p.0@, p.1@)).map_values(|p: (Text, Text)| enc_pair(p)));
    r
}

fn write_attr(a: &Attr) -> (r: Json)
    ensures
        json_view(r) == enc_attr(attr_view(*a)),
{
    let r = make_array3(json_text(&a.0), write_texts(&a.1), write_pairs(&a.2));
    r
}

fn write_target(t: &Target) -> (r: Json)
    ensures
        json_view(r) == enc_pair(target_view(*t)),
{
    write_pair(t)
}

fn write_col_spec(c: &ColSpec) -> (r: Json)
    ensures
        json_view(r) == enc_col_spec(*c),
{
    let w = match &c.1 {
        ColWidth::ColWidth(n) => make_tagged(text("ColWidth"), Json::Number(n.clone())),
        ColWidth::ColWidthDefault => make_bare(text("ColWidthDefault")),
    };
    make_array2(make_bare(alignment_tag(c.0)), w)
}

fn write_list_attributes(l: &ListAttributes) -> (r: Json)
    ensures
        json_view(r) == enc_list_attributes(*l),
{
    make_array3(Json::Int(l.0), make_bare(style_tag(l.1)), make_bare(delim_tag(l.2)))
}

fn write_col_specs(v: &Vec<ColSpec>) -> (r: Json)
    ensures
        json_view(r) == JsonView::Array(v@.map_values(|c: ColSpec| enc_col_spec(c))),
{
    let mut out: Vec<Json> = Vec::new();
    let mut i: usize = 0;
    while i < v.len()
        invariant
            i <= v.len(),
            out@.len() == i,
            forall|k: int| 0 <= k < i ==> json_view(#[trigger] out@[k]) == enc_col_spec(v@[k]),
        decreases v.len() - i,
    {
        let x = &v[i];
        let j = write_col_spec(x);
        out.push(j);
        i += 1;
    }
    let r = Json::Array(out);
    assert(json_items_view(out) =~= v@.map_values(|c: ColSpec| enc_col_spec(c)));
    r
}

fn write_version(v: &Vec<u32>) -> (r: Json)
    ensures
        json_view(r) == enc_version(v@),
{
    let mut out: Vec<Json> = Vec::new();
    let mut i: usize = 0;
    while i < v.len()
        invariant
            i <= v.len(),
            out@.len() == i,
            forall|k: int| 0 <= k < i ==> json_view(#[trigger] out@[k]) == JsonView::Int(v@[k] as i64),
        decreases v.len() - i,
    {
        let x = &v[i];
        let j = Json::Int(*x as i64);
        out.push(j);
        i += 1;
    }
    let r = Json::Array(out);
    assert(json_items_view(out) =~= array_items(enc_version(v@)));
    r
}

fn write_inlines(v: &Vec<Inline>) -> (r: Json)
    ensures
        json_view(r) == enc_inlines(inlines_view(*v)),
    decreases v@,
{
    let mut out: Vec<Json> = Vec::new();
    let mut i: usize = 0;
    while i < v.len()
        invariant
            i <= v.len(),
            out@.len() == i,
            forall|k: int| 0 <= k < i ==> json_view(#[trigger] out@[k]) == enc_inline(inline_view(v@[k])),
        decreases v.len() - i,
    {
        let x = &v[i];
        let j = write_inline(x);
        out.push(j);
        i += 1;
    }
    let r = Json::Array(out);
    assert(json_items_view(out) =~= array_items(enc_inlines(inlines_view(*v))));
    r
}

fn write_blocks(v: &Vec<Block>) -> (r: Json)
    ensures
        json_view(r) == enc_blocks(blocks_view(*v)),
    decreases v@,
{
    let mut out: Vec<Json> = Vec::new();
    let mut i: usize = 0;
    while i < v.len()
        invariant
            i <= v.len(),
            out@.len() == i,
            forall|k: int| 0 <= k < i ==> json_view(#[trigger] out@[k]) == enc_block(block_view(v@[k])),
        decreases v.len() - i,
    {
        let x = &v[i];
        let j = write_block(x);
        out.push(j);
        i += 1;
    }
    let r = Json::Array(out);
    assert(json_items_view(out) =~= array_items(enc_blocks(blocks_view(*v))));
    r
}

fn write_inline_lists(v: &Vec<Vec<Inline>>) -> (r: Json)
    ensures
        json_view(r) == enc_inline_lists(inline_lists_view(*v)),
    decreases v@,
{
    let mut out: Vec<Json> = Vec::new();
    let mut i: usize = 0;
    while i < v.len()
        invariant
            i <= v.len(),
            out@.len() == i,
            forall|k: int| 0 <= k < i ==> json_view(#[trigger] out@[k]) == enc_inlines(inlines_view(v@[k])),
        decreases v.len() - i,
    {
        let x = &v[i];
        let j = write_inlines(x);
        out.push(j);
        i += 1;
    }
    let r = Json::Array(out);
    assert(json_items_view(out) =~= array_items(enc_inline_lists(inline_lists_view(*v))));
    r
}

fn write_block_lists(v: &Vec<Vec<Block>>) -> (r: Json)
    ensures
        json_view(r) == enc_block_lists(block_lists_view(*v)),
    decreases v@,
{
    let mut out: Vec<Json> = Vec::new();
    let mut i: usize = 0;
    while i < v.len()
        invariant
            i <= v.len(),
            out@.len() == i,
            forall|k: int| 0 <= k < i ==> json_view(#[trigger] out@[k]) == enc_blocks(blocks_view(v@[k])),
        decreases v.len() - i,
    {
        let x = &v[i];
        let j = write_blocks(x);
        out.push(j);
        i += 1;
    }
    let r = Json::Array(out);
    assert(json_items_view(out) =~= array_items(enc_block_lists(block_lists_view(*v))));
    r
}

fn write_definitions(v: &Vec<(Vec<Inline>, Vec<Vec<Block>>)>) -> (r: Json)
    ensures
        json_view(r) == enc_definitions(definitions_view(*v)),
    decreases v@,
{
    let mut out: Vec<Json> = Vec::new();
    let mut i: usize = 0;
    while i < v.len()
        invariant
            i <= v.len(),
            out@.len() == i,
            forall|k: int| 0 <= k < i ==> json_view(#[trigger] out@[k]) == JsonView::Array(seq![enc_inlines(inlines_view(v@[k].0)), enc_block_lists(block_lists_view(v@[k].1))]),
        decreases v.len() - i,
    {
        let x = &v[i];
        let j = make_array2(write_inlines(&x.0), write_block_lists(&x.1));
        out.push(j);
        i += 1;
    }
    let r = Json::Array(out);
    assert(json_items_view(out) =~= array_items(enc_definitions(definitions_view(*v))));
    r
}

fn write_citations(v: &Vec<Citation>) -> (r: Json)
    ensures
        json_view(r) == enc_citations(citations_view(*v)),
    decreases v@,
{
    let mut out: Vec<Json> = Vec::new();
    let mut i: usize = 0;
    while i < v.len()
        invariant
            i <= v.len(),
            out@.len() == i,
            forall|k: int| 0 <= k < i ==> json_view(#[trigger] out@[k]) == enc_citation(citations_view(*v)[k]),
        decreases v.len() - i,
    {
        let x = &v[i];
        let j = write_citation(x);
        out.push(j);
        i += 1;
    }
    let r = Json::Array(out);
    assert(json_items_view(out) =~= array_items(enc_citations(citations_view(*v))));
    r
}

fn write_cells(v: &Vec<Cell>) -> (r: Json)
    ensures
        json_view(r) == enc_cells(cells_view(*v)),
    decreases v@,
{
    let mut out: Vec<Json> = Vec::new();
    let mut i: usize = 0;
    while i < v.len()
        invariant
            i <= v.len(),
            out@.len() == i,
            forall|k: int| 0 <= k < i ==> json_view(#[trigger] out@[k]) == array_items(enc_cells(cells_view(*v)))[k],
        decreases v.len() - i,
    {
        let x = &v[i];
        let j = write_cell(x);
        out.push(j);
        i += 1;
    }
    let r = Json::Array(out);
    assert(json_items_view(out) =~= array_items(enc_cells(cells_view(*v))));
    r
}

fn write_rows(v: &Vec<Row>) -> (r: Json)
    ensures
        json_view(r) == enc_rows(rows_view(*v)),
    decreases v@,
{
    let mut out: Vec<Json> = Vec::new();
    let mut i: usize = 0;
    while i < v.len()
        invariant
            i <= v.len(),
            out@.len() == i,
            forall|k: int| 0 <= k < i ==> json_view(#[trigger] out@[k]) == array_items(enc_rows(rows_view(*v)))[k],
        decreases v.len() - i,
    {
        let x = &v[i];
        let j = make_array2(write_attr(&x.0), write_cells(&x.1));
        out.push(j);
        i += 1;
    }
    let r = Json::Array(out);
    assert(json_items_view(out) =~= array_items(enc_rows(rows_view(*v))));
    r
}

fn write_bodies(v: &Vec<TableBody>) -> (r: Json)
    ensures
        json_view(r) == enc_bodies(bodies_view(*v)),
    decreases v@,
{
    let mut out: Vec<Json> = Vec::new();
    let mut i: usize = 0;
    while i < v.len()
        invariant
            i <= v.len(),
            out@.len() == i,
            forall|k: int| 0 <= k < i ==> json_view(#[trigger] out@[k]) == array_items(enc_bodies(bodies_view(*v)))[k],
        decreases v.len() - i,
    {
        let x = &v[i];
        let j = make_array4(write_attr(&x.0), Json::Int(x.1), write_rows(&x.2), write_rows(&x.3));
        out.push(j);
        i += 1;
    }
    let r = Json::Array(out);
    assert(json_items_view(out) =~= array_items(enc_bodies(bodies_view(*v))));
    r
}

fn write_meta_values(v: &Vec<MetaValue>) -> (r: Json)
    ensures
        json_view(r) == enc_meta_values(meta_values_view(*v)),
    decreases v@,
{
    let mut out: Vec<Json> = Vec::new();
    let mut i: usize = 0;
    while i < v.len()
        invariant
            i <= v.len(),
            out@.len() == i,
            forall|k: int| 0 <= k < i ==> json_view(#[trigger] out@[k]) == enc_meta_value(meta_value_view(v@[k])),
        decreases v.len() - i,
    {
        let x = &v[i];
        let j = write_meta_value(x);
        out.push(j);
        i += 1;
    }
    let r = Json::Array(out);
    assert(json_items_view(out) =~= array_items(enc_meta_values(meta_values_view(*v))));
    r
}

fn write_cell(c: &Cell) -> (r: Json)
    ensures
        json_view(r) == JsonView::Array(
            seq![
                enc_attr(attr_view(c.0)),
                bare(alignment_name(c.1)),
                JsonView::Int(c.2),
                JsonView::Int(c.3),
                enc_blocks(blocks_view(c.4)),
            ],
        ),
    decreases *c,
{
    make_array5(
        write_attr(&c.0),
        make_bare(alignment_tag(c.1)),
        Json::Int(c.2),
        Json::Int(c.3),
        write_blocks(&c.4),
    )
}

fn write_citation(c: &Citation) -> (r: Json)
    ensures
        json_view(r) == enc_citation(
            crate::view::CitationView {
                id: c.citationId@,
                prefix: inlines_view(c.citationPrefix),
                suffix: inlines_view(c.citationSuffix),
                mode: c.citationMode,
                note_num: c.citationNoteNum,
                hash: c.citationHash,
            },
        ),
    decreases *c,
{
    let mut e: Vec<(String, Json)> = Vec::new();
    e.push((text("citationId"), json_text(&c.citationId)));
    e.push((text("citationPrefix"), write_inlines(&c.citationPrefix)));
    e.push((text("citationSuffix"), write_inlines(&c.citationSuffix)));
    e.push((text("citationMode"), make_bare(mode_tag(c.citationMode))));
    e.push((text("citationNoteNum"), Json::Int(c.citationNoteNum)));
    e.push((text("citationHash"), Json::Int(c.citationHash)));
    let r = Json::Object(e);
    assert(json_entries_view(e) =~= object_entries(json_view(r)));
    assert(json_entries_view(e) =~= object_entries(
        enc_citation(
            crate::view::CitationView {
                id: c.citationId@,
                prefix: inlines_view(c.citationPrefix),
                suffix: inlines_view(c.citationSuffix),
                mode: c.citationMode,
                note_num: c.citationNoteNum,
                hash: c.citationHash,
            },
        ),
    ));
    r
}

fn write_caption(c: &Caption) -> (r: Json)
    ensures
        json_view(r) == enc_caption(caption_view(*c)),
    decreases *c,
{
    let short = match &c.0 {
        Some(s) => write_inlines(s),
        None => Json::Null,
    };
    let blocks = write_blocks(&c.1);
    let r = make_array2(short, blocks);
    assert(array_items(json_view(r)) =~= array_items(enc_caption(caption_view(*c))));
    r
}

fn write_meta(m: &Meta) -> (r: Json)
    ensures
        json_view(r) == enc_meta(meta_view(*m)),
    decreases m@,
{
    let mut out: Vec<(String, Json)> = Vec::new();
    let mut i: usize = 0;
    while i < m.len()
        invariant
            i <= m.len(),
            out@.len() == i,
            forall|k: int|
                0 <= k < i ==> (#[trigger] out@[k]).0@ == m@[k].0@ && json_view(out@[k].1)
                    == enc_meta_value(meta_value_view(m@[k].1)),
        decreases m.len() - i,
    {
        let x = &m[i];
        let j = write_meta_value(&x.1);
        out.push((x.0.clone(), j));
        i += 1;
    }
    let r = Json::Object(out);
    assert(json_entries_view(out) =~= object_entries(enc_meta(meta_view(*m))));
    r
}

fn write_meta_value(m: &MetaValue) -> (r: Json)
    ensures
        json_view(r) == enc_meta_value(meta_value_view(*m)),
    decreases *m,
{
    match m {
        MetaValue::MetaMap(c) => make_tagged(meta_tag(MetaKind::MetaMap), write_meta(c)),
        MetaValue::MetaList(c) => make_tagged(meta_tag(MetaKind::MetaList), write_meta_values(c)),
        MetaValue::MetaBool(b) => make_tagged(meta_tag(MetaKind::MetaBool), Json::Bool(*b)),
        MetaValue::MetaString(s) => make_tagged(meta_tag(MetaKind::MetaString), json_text(s)),
        MetaValue::MetaInlines(c) => make_tagged(meta_tag(MetaKind::MetaInlines), write_inlines(c)),
        MetaValue::MetaBlocks(c) => make_tagged(meta_tag(MetaKind::MetaBlocks), write_blocks(c)),
    }
}

fn write_inline(i: &Inline) -> (r: Json)
    ensures
        json_view(r) == enc_inline(inline_view(*i)),
    decreases *i,
{
    match i {
        Inline::Str(s) => make_tagged(inline_tag(InlineKind::Str), json_text(s)),
        Inline::Emph(c) => make_tagged(inline_tag(InlineKind::Emph), write_inlines(c)),
        Inline::Underline(c) => make_tagged(inline_tag(InlineKind::Underline), write_inlines(c)),
        Inline::Strong(c) => make_tagged(inline_tag(InlineKind::Strong), write_inlines(c)),
        Inline::Strikeout(c) => make_tagged(inline_tag(InlineKind::Strikeout), write_inlines(c)),
        Inline::Superscript(c) => make_tagged(inline_tag(InlineKind::Superscript), write_inlines(c)),
        Inline::Subscript(c) => make_tagged(inline_tag(InlineKind::Subscript), write_inlines(c)),
        Inline::SmallCaps(c) => make_tagged(inline_tag(InlineKind::SmallCaps), write_inlines(c)),
        Inline::Quoted(q, c) => make_tagged(
            inline_tag(InlineKind::Quoted),
            make_array2(make_bare(quote_tag(*q)), write_inlines(c)),
        ),
        Inline::Cite(cs, c) => make_tagged(
            inline_tag(InlineKind::Cite),
            make_array2(write_citations(cs), write_inlines(c)),
        ),
        Inline::Code(a, s) => make_tagged(
            inline_tag(InlineKind::Code),
            make_array2(write_attr(a), json_text(s)),
        ),
        Inline::Space => make_bare(inline_tag(InlineKind::Space)),
        Inline::SoftBreak => make_bare(inline_tag(InlineKind::SoftBreak)),
        Inline::LineBreak => make_bare(inline_tag(InlineKind::LineBreak)),
        Inline::Math(m, s) => make_tagged(
            inline_tag(InlineKind::Math),
            make_array2(make_bare(math_tag(*m)), json_text(s)),
        ),
        Inline::RawInline(f, s) => make_tagged(
            inline_tag(InlineKind::RawInline),
            make_array2(json_text(&f.0), json_text(s)),
        ),
        Inline::Link(a, c, t) => make_tagged(
            inline_tag(InlineKind::Link),
            make_array3(write_attr(a), write_inlines(c), write_target(t)),
        ),
        Inline::Image(a, c, t) => make_tagged(
            inline_tag(InlineKind::Image),
            make_array3(write_attr(a), write_inlines(c), write_target(t)),
        ),
        Inline::Note(c) => make_tagged(inline_tag(InlineKind::Note), write_blocks(c)),
        Inline::Span(a, c) => make_tagged(
            inline_tag(InlineKind::Span),
            make_array2(write_attr(a), write_inlines(c)),
        ),
    }
}

fn write_block(b: &Block) -> (r: Json)
    ensures
        json_view(r) == enc_block(block_view(*b)),
    decreases *b,
{
    match b {
        Block::Plain(c) => make_tagged(block_tag(BlockKind::Plain), write_inlines(c)),
        Block::Para(c) => make_tagged(block_tag(BlockKind::Para), write_inlines(c)),
        Block::LineBlock(c) => make_tagged(block_tag(BlockKind::LineBlock), write_inline_lists(c)),
        Block::CodeBlock(a, s) => make_tagged(
            block_tag(BlockKind::CodeBlock),
            make_array2(write_attr(a), json_text(s)),
        ),
        Block::RawBlock(f, s) => make_tagged(
            block_tag(BlockKind::RawBlock),
            make_array2(json_text(&f.0), json_text(s)),
        ),
        Block::BlockQuote(c) => make_tagged(block_tag(BlockKind::BlockQuote), write_blocks(c)),
        Block::OrderedList(l, c) => make_tagged(
            block_tag(BlockKind::OrderedList),
            make_array2(write_list_attributes(l), write_block_lists(c)),
        ),
        Block::BulletList(c) => make_tagged(block_tag(BlockKind::BulletList), write_block_lists(c)),
        Block::DefinitionList(c) => make_tagged(
            block_tag(BlockKind::DefinitionList),
            write_definitions(c),
        ),
        Block::Figure(a, cap, c) => make_tagged(
            block_tag(BlockKind::Figure),
            make_array3(write_attr(a), write_caption(cap), write_blocks(c)),
        ),
        Block::Header(l, a, c) => make_tagged(
            block_tag(BlockKind::Header),
            make_array3(Json::Int(*l), write_attr(a), write_inlines(c)),
        ),
        Block::HorizontalRule => make_bare(block_tag(BlockKind::HorizontalRule)),
        Block::Table(a, cap, cols, head, bodies, foot) => make_tagged(
            block_tag(BlockKind::Table),
            make_array6(
                write_attr(a),
                write_caption(cap),
                write_col_specs(cols),
                make_array2(write_attr(&head.0), write_rows(&head.1)),
                write_bodies(bodies),
                make_array2(write_attr(&foot.0), write_rows(&foot.1)),
            ),
        ),
        Block::Div(a, c) => make_tagged(
            block_tag(BlockKind::Div),
            make_array2(write_attr(a), write_blocks(c)),
        ),
        Block::Null => make_bare(block_tag(BlockKind::Null)),
    }
}

/// The wire form of a document.
pub fn write_pandoc(d: &Pandoc) -> (r: Json)
    ensures
        json_view(r) == enc_pandoc(pandoc_view(*d)),
{
    let mut e: Vec<(String, Json)> = Vec::new();
    e.push((text("pandoc-api-version"), write_version(&d.pandoc_api_version)));
    e.push((text("meta"), write_meta(&d.meta)));
    e.push((text("blocks"), write_blocks(&d.blocks)));
    let r = Json::Object(e);
    assert(json_entries_view(e) =~= object_entries(enc_pandoc(pandoc_view(*d))));
    r
}

} // verus!
