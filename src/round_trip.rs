//! Reading back what was written gives the same tree.
use vstd::prelude::*;

use crate::error::Category;
use crate::json::{array_items, object_entries, JsonView};
use crate::model::ColSpec;
use crate::view::{
    AttrView, BlockView, CaptionView, CellView, CitationView, InlineView, MetaValueView, MetaView,
    PandocView, RowView, TableBodyView, Text,
};
use crate::wire::{
    alignment_name, bare, block_is_unit, block_kind, block_name, block_payload, dec_attr,
    dec_block, dec_block_items, dec_block_list_items, dec_block_lists, dec_block_with,
    dec_blocks, dec_bodies, dec_body, dec_body_items, dec_caption, dec_cell, dec_cell_items,
    dec_cells, dec_citation, dec_citation_items, dec_citations, dec_col_spec, dec_col_spec_items,
    dec_col_specs, dec_definition, dec_definition_items, dec_definitions, dec_inline, dec_inline_items,
    dec_inline_list_items, dec_inline_lists, dec_inline_with, dec_inlines, dec_meta,
    dec_meta_entries, dec_meta_value, dec_meta_value_items, dec_meta_values, dec_pair_items,
    dec_pairs, dec_pandoc, dec_row, dec_row_items, dec_rows, dec_text_items, dec_texts,
    dec_version_items, enc_attr, enc_block, enc_block_lists, enc_blocks, enc_bodies,
    enc_caption, enc_cells, enc_citation, enc_citations, enc_col_spec, enc_definitions,
    enc_inline, enc_inline_lists, enc_inlines, enc_meta, enc_meta_value, enc_meta_values,
    enc_pair, enc_pandoc, enc_rows, enc_texts, inline_is_unit, inline_kind, inline_name,
    inline_payload, lemma_alignment_names, lemma_block_names, lemma_delim_names,
    lemma_inline_names, lemma_math_names, lemma_meta_names, lemma_mode_names, lemma_quote_names,
    lemma_style_names, lookup, BlockKind, InlineKind, entries_sorted, meta_value_wf, pandoc_wf,
    key_position, sort_entries, text_lt, meta_kind, meta_name, tag_in, tagged, version_supported, E,
};

verus! {

broadcast use vstd::string::group_string_axioms;

/// The keys of the wire form differ from one another.
pub proof fn lemma_keys()
    ensures
        "t"@ != "c"@,
        "pandoc-api-version"@ != "meta"@,
        "pandoc-api-version"@ != "blocks"@,
        "meta"@ != "blocks"@,
        "ColWidth"@ != "ColWidthDefault"@,
        "citationId"@ != "citationPrefix"@,
        "citationId"@ != "citationSuffix"@,
        "citationId"@ != "citationMode"@,
        "citationId"@ != "citationNoteNum"@,
        "citationId"@ != "citationHash"@,
        "citationPrefix"@ != "citationSuffix"@,
        "citationPrefix"@ != "citationMode"@,
        "citationPrefix"@ != "citationNoteNum"@,
        "citationPrefix"@ != "citationHash"@,
        "citationSuffix"@ != "citationMode"@,
        "citationSuffix"@ != "citationNoteNum"@,
        "citationSuffix"@ != "citationHash"@,
        "citationMode"@ != "citationNoteNum"@,
        "citationMode"@ != "citationHash"@,
        "citationNoteNum"@ != "citationHash"@,
{
    reveal_strlit("t");
    reveal_strlit("c");
    reveal_strlit("pandoc-api-version");
    reveal_strlit("meta");
    reveal_strlit("blocks");
    reveal_strlit("ColWidth");
    reveal_strlit("ColWidthDefault");
    reveal_strlit("citationId");
    reveal_strlit("citationPrefix");
    reveal_strlit("citationSuffix");
    reveal_strlit("citationMode");
    reveal_strlit("citationNoteNum");
    reveal_strlit("citationHash");
    assert("t"@[0] == 't' && "c"@[0] == 'c');
    assert("pandoc-api-version"@.len() == 18 && "meta"@.len() == 4 && "blocks"@.len() == 6);
    assert("ColWidth"@.len() == 8 && "ColWidthDefault"@.len() == 15);
    assert("citationId"@.len() == 10 && "citationPrefix"@.len() == 14 && "citationSuffix"@.len()
        == 14 && "citationMode"@.len() == 12 && "citationNoteNum"@.len() == 15
        && "citationHash"@.len() == 12);
    assert("citationPrefix"@[8] == 'P' && "citationSuffix"@[8] == 'S');
    assert("citationMode"@[8] == 'M' && "citationHash"@[8] == 'H');
}

pub proof fn lemma_tagged(name: Text, payload: JsonView)
    ensures
        tagged(name, payload) matches JsonView::Object(e) && tag_in(e) == Some(name) && lookup(
            e,
            "c"@,
        ) == Some(payload),
{
    lemma_keys();
    let e = seq![("t"@, JsonView::String(name)), ("c"@, payload)];
    assert(lookup(e, "t"@) == Some(JsonView::String(name)));
    assert(e.drop_first()[0] == ("c"@, payload));
    assert(lookup(e.drop_first(), "c"@) == Some(payload));
}

pub proof fn lemma_bare(name: Text)
    ensures
        bare(name) matches JsonView::Object(e) && tag_in(e) == Some(name),
{
}

pub proof fn lemma_text_items(s: Seq<Text>, category: Category, i: int)
    requires
        0 <= i <= s.len(),
    ensures
        dec_text_items(s.map_values(|t: Text| JsonView::String(t)), category, i) == Ok::<_, E>(s.subrange(i, s.len() as int)),
    decreases s.len() - i,
{
    if i < s.len() {
        
        lemma_text_items(s, category, i + 1);
        assert(seq![s[i]] + s.subrange(i + 1, s.len() as int) =~= s.subrange(i, s.len() as int));
    } else {
        assert(s.subrange(i, s.len() as int) =~= Seq::<Text>::empty());
    }
}

pub proof fn lemma_texts(s: Seq<Text>, category: Category)
    ensures
        dec_texts(enc_texts(s), category) == Ok::<_, E>(s),
{
    lemma_text_items(s, category, 0);
    assert(s.subrange(0, s.len() as int) =~= s);
}

pub proof fn lemma_pair_items(s: Seq<(Text, Text)>, category: Category, i: int)
    requires
        0 <= i <= s.len(),
    ensures
        dec_pair_items(s.map_values(|p: (Text, Text)| enc_pair(p)), category, i) == Ok::<_, E>(s.subrange(i, s.len() as int)),
    decreases s.len() - i,
{
    if i < s.len() {
        
        lemma_pair_items(s, category, i + 1);
        assert(seq![s[i]] + s.subrange(i + 1, s.len() as int) =~= s.subrange(i, s.len() as int));
    } else {
        assert(s.subrange(i, s.len() as int) =~= Seq::<(Text, Text)>::empty());
    }
}

pub proof fn lemma_pairs(s: Seq<(Text, Text)>, category: Category)
    ensures
        dec_pairs(JsonView::Array(s.map_values(|p: (Text, Text)| enc_pair(p))), category) == Ok::<_, E>(s),
{
    lemma_pair_items(s, category, 0);
    assert(s.subrange(0, s.len() as int) =~= s);
}

pub proof fn lemma_attr(a: AttrView)
    ensures
        dec_attr(enc_attr(a)) == Ok::<_, E>(a),
{
    lemma_texts(a.1, Category::Attr);
    lemma_pairs(a.2, Category::Attr);
}

pub proof fn lemma_col_spec(c: ColSpec)
    ensures
        dec_col_spec(enc_col_spec(c)) == Ok::<_, E>(c),
{
    lemma_alignment_names(c.0);
    lemma_keys();
    match c.1 {
        crate::model::ColWidth::ColWidth(n) => lemma_tagged("ColWidth"@, JsonView::Number(n)),
        crate::model::ColWidth::ColWidthDefault => {},
    }
}

pub proof fn lemma_col_spec_items(s: Seq<ColSpec>, i: int)
    requires
        0 <= i <= s.len(),
    ensures
        dec_col_spec_items(s.map_values(|c: ColSpec| enc_col_spec(c)), i) == Ok::<_, E>(s.subrange(i, s.len() as int)),
    decreases s.len() - i,
{
    if i < s.len() {
        lemma_col_spec(s[i]);
        lemma_col_spec_items(s, i + 1);
        assert(seq![s[i]] + s.subrange(i + 1, s.len() as int) =~= s.subrange(i, s.len() as int));
    } else {
        assert(s.subrange(i, s.len() as int) =~= Seq::<ColSpec>::empty());
    }
}

pub proof fn lemma_col_specs(s: Seq<ColSpec>)
    ensures
        dec_col_specs(JsonView::Array(s.map_values(|c: ColSpec| enc_col_spec(c)))) == Ok::<_, E>(s),
{
    lemma_col_spec_items(s, 0);
    assert(s.subrange(0, s.len() as int) =~= s);
}

pub proof fn lemma_version_items(s: Seq<u32>, i: int)
    requires
        0 <= i <= s.len(),
    ensures
        dec_version_items(s.map_values(|x: u32| JsonView::Int(x as i64)), i) == Ok::<_, E>(s.subrange(i, s.len() as int)),
    decreases s.len() - i,
{
    if i < s.len() {
        
        lemma_version_items(s, i + 1);
        assert(seq![s[i]] + s.subrange(i + 1, s.len() as int) =~= s.subrange(i, s.len() as int));
    } else {
        assert(s.subrange(i, s.len() as int) =~= Seq::<u32>::empty());
    }
}

pub proof fn lemma_inline_items(s: Seq<InlineView>, i: int)
    requires
        0 <= i <= s.len(),
    ensures
        dec_inline_items(array_items(enc_inlines(s)), i) == Ok::<_, E>(s.subrange(i, s.len() as int)),
    decreases s, s.len() - i,
{
    if i < s.len() {
        lemma_inline(s[i]);
        lemma_inline_items(s, i + 1);
        assert(seq![s[i]] + s.subrange(i + 1, s.len() as int) =~= s.subrange(i, s.len() as int));
    } else {
        assert(s.subrange(i, s.len() as int) =~= Seq::<InlineView>::empty());
    }
}

pub proof fn lemma_inlines(s: Seq<InlineView>)
    ensures
        dec_inlines(enc_inlines(s)) == Ok::<_, E>(s),
    decreases s, s.len() + 1,
{
    lemma_inline_items(s, 0);
    assert(s.subrange(0, s.len() as int) =~= s);
}

pub proof fn lemma_block_items(s: Seq<BlockView>, i: int)
    requires
        0 <= i <= s.len(),
    ensures
        dec_block_items(array_items(enc_blocks(s)), i) == Ok::<_, E>(s.subrange(i, s.len() as int)),
    decreases s, s.len() - i,
{
    if i < s.len() {
        lemma_block(s[i]);
        lemma_block_items(s, i + 1);
        assert(seq![s[i]] + s.subrange(i + 1, s.len() as int) =~= s.subrange(i, s.len() as int));
    } else {
        assert(s.subrange(i, s.len() as int) =~= Seq::<BlockView>::empty());
    }
}

pub proof fn lemma_blocks(s: Seq<BlockView>)
    ensures
        dec_blocks(enc_blocks(s)) == Ok::<_, E>(s),
    decreases s, s.len() + 1,
{
    lemma_block_items(s, 0);
    assert(s.subrange(0, s.len() as int) =~= s);
}

pub proof fn lemma_inline_list_items(s: Seq<Seq<InlineView>>, i: int)
    requires
        0 <= i <= s.len(),
    ensures
        dec_inline_list_items(array_items(enc_inline_lists(s)), i) == Ok::<_, E>(s.subrange(i, s.len() as int)),
    decreases s, s.len() - i,
{
    if i < s.len() {
        lemma_inlines(s[i]);
        lemma_inline_list_items(s, i + 1);
        assert(seq![s[i]] + s.subrange(i + 1, s.len() as int) =~= s.subrange(i, s.len() as int));
    } else {
        assert(s.subrange(i, s.len() as int) =~= Seq::<Seq<InlineView>>::empty());
    }
}

pub proof fn lemma_inline_lists(s: Seq<Seq<InlineView>>)
    ensures
        dec_inline_lists(enc_inline_lists(s)) == Ok::<_, E>(s),
    decreases s, s.len() + 1,
{
    lemma_inline_list_items(s, 0);
    assert(s.subrange(0, s.len() as int) =~= s);
}

pub proof fn lemma_block_list_items(s: Seq<Seq<BlockView>>, i: int)
    requires
        0 <= i <= s.len(),
    ensures
        dec_block_list_items(array_items(enc_block_lists(s)), i) == Ok::<_, E>(s.subrange(i, s.len() as int)),
    decreases s, s.len() - i,
{
    if i < s.len() {
        lemma_blocks(s[i]);
        lemma_block_list_items(s, i + 1);
        assert(seq![s[i]] + s.subrange(i + 1, s.len() as int) =~= s.subrange(i, s.len() as int));
    } else {
        assert(s.subrange(i, s.len() as int) =~= Seq::<Seq<BlockView>>::empty());
    }
}

pub proof fn lemma_block_lists(s: Seq<Seq<BlockView>>)
    ensures
        dec_block_lists(enc_block_lists(s)) == Ok::<_, E>(s),
    decreases s, s.len() + 1,
{
    lemma_block_list_items(s, 0);
    assert(s.subrange(0, s.len() as int) =~= s);
}

pub proof fn lemma_definition_items(s: Seq<(Seq<InlineView>, Seq<Seq<BlockView>>)>, i: int)
    requires
        0 <= i <= s.len(),
    ensures
        dec_definition_items(array_items(enc_definitions(s)), i) == Ok::<_, E>(s.subrange(i, s.len() as int)),
    decreases s, s.len() - i,
{
    if i < s.len() {
        lemma_definition(s[i]);
        lemma_definition_items(s, i + 1);
        assert(seq![s[i]] + s.subrange(i + 1, s.len() as int) =~= s.subrange(i, s.len() as int));
    } else {
        assert(s.subrange(i, s.len() as int) =~= Seq::<(Seq<InlineView>, Seq<Seq<BlockView>>)>::empty());
    }
}

pub proof fn lemma_definitions(s: Seq<(Seq<InlineView>, Seq<Seq<BlockView>>)>)
    ensures
        dec_definitions(enc_definitions(s)) == Ok::<_, E>(s),
    decreases s, s.len() + 1,
{
    lemma_definition_items(s, 0);
    assert(s.subrange(0, s.len() as int) =~= s);
}

pub proof fn lemma_citation_items(s: Seq<CitationView>, i: int)
    requires
        0 <= i <= s.len(),
    ensures
        dec_citation_items(array_items(enc_citations(s)), i) == Ok::<_, E>(s.subrange(i, s.len() as int)),
    decreases s, s.len() - i,
{
    if i < s.len() {
        lemma_citation(s[i]);
        lemma_citation_items(s, i + 1);
        assert(seq![s[i]] + s.subrange(i + 1, s.len() as int) =~= s.subrange(i, s.len() as int));
    } else {
        assert(s.subrange(i, s.len() as int) =~= Seq::<CitationView>::empty());
    }
}

pub proof fn lemma_citations(s: Seq<CitationView>)
    ensures
        dec_citations(enc_citations(s)) == Ok::<_, E>(s),
    decreases s, s.len() + 1,
{
    lemma_citation_items(s, 0);
    assert(s.subrange(0, s.len() as int) =~= s);
}

pub proof fn lemma_cell_items(s: Seq<CellView>, i: int)
    requires
        0 <= i <= s.len(),
    ensures
        dec_cell_items(array_items(enc_cells(s)), i) == Ok::<_, E>(s.subrange(i, s.len() as int)),
    decreases s, s.len() - i,
{
    if i < s.len() {
        lemma_cell(s[i]);
        lemma_cell_items(s, i + 1);
        assert(seq![s[i]] + s.subrange(i + 1, s.len() as int) =~= s.subrange(i, s.len() as int));
    } else {
        assert(s.subrange(i, s.len() as int) =~= Seq::<CellView>::empty());
    }
}

pub proof fn lemma_cells(s: Seq<CellView>)
    ensures
        dec_cells(enc_cells(s)) == Ok::<_, E>(s),
    decreases s, s.len() + 1,
{
    lemma_cell_items(s, 0);
    assert(s.subrange(0, s.len() as int) =~= s);
}

pub proof fn lemma_row_items(s: Seq<RowView>, i: int)
    requires
        0 <= i <= s.len(),
    ensures
        dec_row_items(array_items(enc_rows(s)), i) == Ok::<_, E>(s.subrange(i, s.len() as int)),
    decreases s, s.len() - i,
{
    if i < s.len() {
        lemma_row(s[i]);
        lemma_row_items(s, i + 1);
        assert(seq![s[i]] + s.subrange(i + 1, s.len() as int) =~= s.subrange(i, s.len() as int));
    } else {
        assert(s.subrange(i, s.len() as int) =~= Seq::<RowView>::empty());
    }
}

pub proof fn lemma_rows(s: Seq<RowView>)
    ensures
        dec_rows(enc_rows(s)) == Ok::<_, E>(s),
    decreases s, s.len() + 1,
{
    lemma_row_items(s, 0);
    assert(s.subrange(0, s.len() as int) =~= s);
}

#[verifier::spinoff_prover]
#[verifier::rlimit(40)]
pub proof fn lemma_body_items(s: Seq<TableBodyView>, i: int)
    requires
        0 <= i <= s.len(),
    ensures
        dec_body_items(array_items(enc_bodies(s)), i) == Ok::<_, E>(s.subrange(i, s.len() as int)),
    decreases s, s.len() - i,
{
    if i < s.len() {
        lemma_body(s[i]);
        lemma_body_items(s, i + 1);
        assert(seq![s[i]] + s.subrange(i + 1, s.len() as int) =~= s.subrange(i, s.len() as int));
    } else {
        assert(s.subrange(i, s.len() as int) =~= Seq::<TableBodyView>::empty());
    }
}

pub proof fn lemma_bodies(s: Seq<TableBodyView>)
    ensures
        dec_bodies(enc_bodies(s)) == Ok::<_, E>(s),
    decreases s, s.len() + 1,
{
    lemma_body_items(s, 0);
    assert(s.subrange(0, s.len() as int) =~= s);
}

pub proof fn lemma_meta_value_items(s: Seq<MetaValueView>, i: int)
    requires
        forall|k: int| 0 <= k < s.len() ==> meta_value_wf(#[trigger] s[k]),
        0 <= i <= s.len(),
    ensures
        dec_meta_value_items(array_items(enc_meta_values(s)), i) == Ok::<_, E>(s.subrange(i, s.len() as int)),
    decreases s, s.len() - i,
{
    if i < s.len() {
        lemma_meta_value(s[i]);
        lemma_meta_value_items(s, i + 1);
        assert(seq![s[i]] + s.subrange(i + 1, s.len() as int) =~= s.subrange(i, s.len() as int));
    } else {
        assert(s.subrange(i, s.len() as int) =~= Seq::<MetaValueView>::empty());
    }
}

pub proof fn lemma_meta_values(s: Seq<MetaValueView>)
    requires
        forall|k: int| 0 <= k < s.len() ==> meta_value_wf(#[trigger] s[k]),
    ensures
        dec_meta_values(enc_meta_values(s)) == Ok::<_, E>(s),
    decreases s, s.len() + 1,
{
    lemma_meta_value_items(s, 0);
    assert(s.subrange(0, s.len() as int) =~= s);
}

pub proof fn lemma_meta_entries(s: MetaView, i: int)
    requires
        forall|k: int| 0 <= k < s.len() ==> meta_value_wf(#[trigger] s[k].1),
        0 <= i <= s.len(),
    ensures
        dec_meta_entries(object_entries(enc_meta(s)), i) == Ok::<_, E>(s.subrange(i, s.len() as int)),
    decreases s, s.len() - i,
{
    if i < s.len() {
        lemma_meta_value(s[i].1);
        lemma_meta_entries(s, i + 1);
        assert(seq![s[i]] + s.subrange(i + 1, s.len() as int) =~= s.subrange(i, s.len() as int));
    } else {
        assert(s.subrange(i, s.len() as int) =~= Seq::<(Text, MetaValueView)>::empty());
    }
}

pub proof fn lemma_meta(s: MetaView)
    requires
        entries_sorted(s),
        forall|k: int| 0 <= k < s.len() ==> meta_value_wf(#[trigger] s[k].1),
    ensures
        dec_meta(enc_meta(s)) == Ok::<_, E>(s),
    decreases s, s.len() + 1,
{
    lemma_meta_entries(s, 0);
    assert(s.subrange(0, s.len() as int) =~= s);
    lemma_sorted_fixed(s);
}

pub proof fn lemma_definition(d: (Seq<InlineView>, Seq<Seq<BlockView>>))
    ensures
        dec_definition(JsonView::Array(seq![enc_inlines(d.0), enc_block_lists(d.1)])) == Ok::<_, E>(d),
    decreases d, 0int,
{
    lemma_inlines(d.0);
    lemma_block_lists(d.1);
}

pub proof fn lemma_cell(c: CellView)
    ensures
        dec_cell(JsonView::Array(seq![enc_attr(c.0), bare(alignment_name(c.1)), JsonView::Int(c.2), JsonView::Int(c.3), enc_blocks(c.4)])) == Ok::<_, E>(c),
    decreases c, 0int,
{
    lemma_attr(c.0);
    lemma_alignment_names(c.1);
    lemma_blocks(c.4);
}

pub proof fn lemma_row(r: RowView)
    ensures
        dec_row(JsonView::Array(seq![enc_attr(r.0), enc_cells(r.1)])) == Ok::<_, E>(r),
    decreases r, 0int,
{
    lemma_attr(r.0);
    lemma_cells(r.1);
}

pub proof fn lemma_body(b: TableBodyView)
    ensures
        dec_body(JsonView::Array(seq![enc_attr(b.0), JsonView::Int(b.1), enc_rows(b.2), enc_rows(b.3)])) == Ok::<_, E>(b),
    decreases b, 0int,
{
    lemma_attr(b.0);
    lemma_rows(b.2);
    lemma_rows(b.3);
}

pub proof fn lemma_meta_value(m: MetaValueView)
    requires
        meta_value_wf(m),
    ensures
        dec_meta_value(enc_meta_value(m)) == Ok::<_, E>(m),
    decreases m, 0int,
{
    let k = meta_kind(m);
    lemma_meta_names(k);
    match m {
        MetaValueView::MetaMap(c) => {
            lemma_tagged(meta_name(k), enc_meta(c));
            lemma_meta(c);
        },
        MetaValueView::MetaList(c) => {
            lemma_tagged(meta_name(k), enc_meta_values(c));
            lemma_meta_values(c);
        },
        MetaValueView::MetaBool(b) => lemma_tagged(meta_name(k), JsonView::Bool(b)),
        MetaValueView::MetaString(t) => lemma_tagged(meta_name(k), JsonView::String(t)),
        MetaValueView::MetaInlines(c) => {
            lemma_tagged(meta_name(k), enc_inlines(c));
            lemma_inlines(c);
        },
        MetaValueView::MetaBlocks(c) => {
            lemma_tagged(meta_name(k), enc_blocks(c));
            lemma_blocks(c);
        },
    }
}

pub proof fn lemma_citation(c: CitationView)
    ensures
        dec_citation(enc_citation(c)) == Ok::<_, E>(c),
    decreases c, 0int,
{
    lemma_keys();
    lemma_mode_names(c.mode);
    lemma_inlines(c.prefix);
    lemma_inlines(c.suffix);
    reveal_with_fuel(lookup, 7);
}

pub proof fn lemma_caption(c: CaptionView)
    ensures
        dec_caption(enc_caption(c)) == Ok::<_, E>(c),
    decreases c, 0int,
{
    match c.0 {
        Some(s) => lemma_inlines(s),
        None => {},
    }
    lemma_blocks(c.1);
}

pub proof fn lemma_inline(i: InlineView)
    ensures
        dec_inline(enc_inline(i)) == Ok::<_, E>(i),
    decreases i, 2int,
{
    let k = inline_kind(i);
    lemma_inline_names(k);
    if inline_is_unit(k) {
        lemma_bare(inline_name(k));
    } else {
        lemma_tagged(inline_name(k), inline_payload(i));
        lemma_inline_payload(i);
    }
}


pub proof fn lemma_block(b: BlockView)
    ensures
        dec_block(enc_block(b)) == Ok::<_, E>(b),
    decreases b, 2int,
{
    let k = block_kind(b);
    lemma_block_names(k);
    if block_is_unit(k) {
        lemma_bare(block_name(k));
    } else {
        lemma_tagged(block_name(k), block_payload(b));
        lemma_block_payload(b);
    }
}


/// Reading back a written document gives the same document, where its version is one that
/// reading accepts and its metadata keys are in the order reading gives them.
pub proof fn lemma_round_trip(d: PandocView)
    requires
        d.version.len() >= 2,
        version_supported(d.version[0] as i64, d.version[1] as i64),
        pandoc_wf(d),
    ensures
        dec_pandoc(enc_pandoc(d)) == Ok::<_, E>(d),
{
    lemma_keys();
    lemma_version_items(d.version, 0);
    assert(d.version.subrange(0, d.version.len() as int) =~= d.version);
    lemma_meta(d.meta);
    lemma_blocks(d.blocks);
    reveal_with_fuel(lookup, 4);
}

pub proof fn lemma_inline_payload(i: InlineView)
    ensures
        !inline_is_unit(inline_kind(i)) ==> dec_inline_with(inline_kind(i), inline_payload(i))
            == Ok::<_, E>(i),
    decreases i, 1int,
{
    match i {
        InlineView::Str(..) => lemma_inline_str(i),
        InlineView::Emph(..) => lemma_inline_emph(i),
        InlineView::Underline(..) => lemma_inline_underline(i),
        InlineView::Strong(..) => lemma_inline_strong(i),
        InlineView::Strikeout(..) => lemma_inline_strikeout(i),
        InlineView::Superscript(..) => lemma_inline_superscript(i),
        InlineView::Subscript(..) => lemma_inline_subscript(i),
        InlineView::SmallCaps(..) => lemma_inline_small_caps(i),
        InlineView::Quoted(..) => lemma_inline_quoted(i),
        InlineView::Cite(..) => lemma_inline_cite(i),
        InlineView::Code(..) => lemma_inline_code(i),
        InlineView::Math(..) => lemma_inline_math(i),
        InlineView::RawInline(..) => lemma_inline_raw_inline(i),
        InlineView::Link(..) => lemma_inline_link(i),
        InlineView::Image(..) => lemma_inline_image(i),
        InlineView::Note(..) => lemma_inline_note(i),
        InlineView::Span(..) => lemma_inline_span(i),
        _ => {},
    }
}

pub proof fn lemma_block_payload(b: BlockView)
    ensures
        !block_is_unit(block_kind(b)) ==> dec_block_with(block_kind(b), block_payload(b))
            == Ok::<_, E>(b),
    decreases b, 1int,
{
    match b {
        BlockView::Plain(..) => lemma_block_plain(b),
        BlockView::Para(..) => lemma_block_para(b),
        BlockView::LineBlock(..) => lemma_block_line_block(b),
        BlockView::CodeBlock(..) => lemma_block_code_block(b),
        BlockView::RawBlock(..) => lemma_block_raw_block(b),
        BlockView::BlockQuote(..) => lemma_block_block_quote(b),
        BlockView::OrderedList(..) => lemma_block_ordered_list(b),
        BlockView::BulletList(..) => lemma_block_bullet_list(b),
        BlockView::DefinitionList(..) => lemma_block_definition_list(b),
        BlockView::Figure(..) => lemma_block_figure(b),
        BlockView::Header(..) => lemma_block_header(b),
        BlockView::Table(..) => lemma_block_table(b),
        BlockView::Div(..) => lemma_block_div(b),
        _ => {},
    }
}

proof fn lemma_inline_str(i: InlineView)
    requires
        i is Str,
    ensures
        dec_inline_with(InlineKind::Str, inline_payload(i)) == Ok::<_, E>(i),
    decreases i, 0int,
{
    match i {
        InlineView::Str(_) => {
            
        },
        _ => {},
    }
}

proof fn lemma_inline_emph(i: InlineView)
    requires
        i is Emph,
    ensures
        dec_inline_with(InlineKind::Emph, inline_payload(i)) == Ok::<_, E>(i),
    decreases i, 0int,
{
    match i {
        InlineView::Emph(c) => {
            lemma_inlines(c);
        },
        _ => {},
    }
}

proof fn lemma_inline_underline(i: InlineView)
    requires
        i is Underline,
    ensures
        dec_inline_with(InlineKind::Underline, inline_payload(i)) == Ok::<_, E>(i),
    decreases i, 0int,
{
    match i {
        InlineView::Underline(c) => {
            lemma_inlines(c);
        },
        _ => {},
    }
}

proof fn lemma_inline_strong(i: InlineView)
    requires
        i is Strong,
    ensures
        dec_inline_with(InlineKind::Strong, inline_payload(i)) == Ok::<_, E>(i),
    decreases i, 0int,
{
    match i {
        InlineView::Strong(c) => {
            lemma_inlines(c);
        },
        _ => {},
    }
}

proof fn lemma_inline_strikeout(i: InlineView)
    requires
        i is Strikeout,
    ensures
        dec_inline_with(InlineKind::Strikeout, inline_payload(i)) == Ok::<_, E>(i),
    decreases i, 0int,
{
    match i {
        InlineView::Strikeout(c) => {
            lemma_inlines(c);
        },
        _ => {},
    }
}

proof fn lemma_inline_superscript(i: InlineView)
    requires
        i is Superscript,
    ensures
        dec_inline_with(InlineKind::Superscript, inline_payload(i)) == Ok::<_, E>(i),
    decreases i, 0int,
{
    match i {
        InlineView::Superscript(c) => {
            lemma_inlines(c);
        },
        _ => {},
    }
}

proof fn lemma_inline_subscript(i: InlineView)
    requires
        i is Subscript,
    ensures
        dec_inline_with(InlineKind::Subscript, inline_payload(i)) == Ok::<_, E>(i),
    decreases i, 0int,
{
    match i {
        InlineView::Subscript(c) => {
            lemma_inlines(c);
        },
        _ => {},
    }
}

proof fn lemma_inline_small_caps(i: InlineView)
    requires
        i is SmallCaps,
    ensures
        dec_inline_with(InlineKind::SmallCaps, inline_payload(i)) == Ok::<_, E>(i),
    decreases i, 0int,
{
    match i {
        InlineView::SmallCaps(c) => {
            lemma_inlines(c);
        },
        _ => {},
    }
}

proof fn lemma_inline_quoted(i: InlineView)
    requires
        i is Quoted,
    ensures
        dec_inline_with(InlineKind::Quoted, inline_payload(i)) == Ok::<_, E>(i),
    decreases i, 0int,
{
    match i {
        InlineView::Quoted(q, c) => {
            lemma_quote_names(q);
            lemma_inlines(c);
        },
        _ => {},
    }
}

proof fn lemma_inline_cite(i: InlineView)
    requires
        i is Cite,
    ensures
        dec_inline_with(InlineKind::Cite, inline_payload(i)) == Ok::<_, E>(i),
    decreases i, 0int,
{
    match i {
        InlineView::Cite(cs, c) => {
            lemma_citations(cs);
            lemma_inlines(c);
        },
        _ => {},
    }
}

proof fn lemma_inline_code(i: InlineView)
    requires
        i is Code,
    ensures
        dec_inline_with(InlineKind::Code, inline_payload(i)) == Ok::<_, E>(i),
    decreases i, 0int,
{
    match i {
        InlineView::Code(a, _) => {
            lemma_attr(a);
        },
        _ => {},
    }
}

proof fn lemma_inline_math(i: InlineView)
    requires
        i is Math,
    ensures
        dec_inline_with(InlineKind::Math, inline_payload(i)) == Ok::<_, E>(i),
    decreases i, 0int,
{
    match i {
        InlineView::Math(m, _) => {
            lemma_math_names(m);
        },
        _ => {},
    }
}

proof fn lemma_inline_raw_inline(i: InlineView)
    requires
        i is RawInline,
    ensures
        dec_inline_with(InlineKind::RawInline, inline_payload(i)) == Ok::<_, E>(i),
    decreases i, 0int,
{
    match i {
        InlineView::RawInline(_, _) => {
            
        },
        _ => {},
    }
}

proof fn lemma_inline_link(i: InlineView)
    requires
        i is Link,
    ensures
        dec_inline_with(InlineKind::Link, inline_payload(i)) == Ok::<_, E>(i),
    decreases i, 0int,
{
    match i {
        InlineView::Link(a, c, _) => {
            lemma_attr(a);
            lemma_inlines(c);
        },
        _ => {},
    }
}

proof fn lemma_inline_image(i: InlineView)
    requires
        i is Image,
    ensures
        dec_inline_with(InlineKind::Image, inline_payload(i)) == Ok::<_, E>(i),
    decreases i, 0int,
{
    match i {
        InlineView::Image(a, c, _) => {
            lemma_attr(a);
            lemma_inlines(c);
        },
        _ => {},
    }
}

proof fn lemma_inline_note(i: InlineView)
    requires
        i is Note,
    ensures
        dec_inline_with(InlineKind::Note, inline_payload(i)) == Ok::<_, E>(i),
    decreases i, 0int,
{
    match i {
        InlineView::Note(c) => {
            lemma_blocks(c);
        },
        _ => {},
    }
}

proof fn lemma_inline_span(i: InlineView)
    requires
        i is Span,
    ensures
        dec_inline_with(InlineKind::Span, inline_payload(i)) == Ok::<_, E>(i),
    decreases i, 0int,
{
    match i {
        InlineView::Span(a, c) => {
            lemma_attr(a);
            lemma_inlines(c);
        },
        _ => {},
    }
}

proof fn lemma_block_plain(b: BlockView)
    requires
        b is Plain,
    ensures
        dec_block_with(BlockKind::Plain, block_payload(b)) == Ok::<_, E>(b),
    decreases b, 0int,
{
    match b {
        BlockView::Plain(c) => {
            lemma_inlines(c);
        },
        _ => {},
    }
}

proof fn lemma_block_para(b: BlockView)
    requires
        b is Para,
    ensures
        dec_block_with(BlockKind::Para, block_payload(b)) == Ok::<_, E>(b),
    decreases b, 0int,
{
    match b {
        BlockView::Para(c) => {
            lemma_inlines(c);
        },
        _ => {},
    }
}

proof fn lemma_block_line_block(b: BlockView)
    requires
        b is LineBlock,
    ensures
        dec_block_with(BlockKind::LineBlock, block_payload(b)) == Ok::<_, E>(b),
    decreases b, 0int,
{
    match b {
        BlockView::LineBlock(c) => {
            lemma_inline_lists(c);
        },
        _ => {},
    }
}

proof fn lemma_block_code_block(b: BlockView)
    requires
        b is CodeBlock,
    ensures
        dec_block_with(BlockKind::CodeBlock, block_payload(b)) == Ok::<_, E>(b),
    decreases b, 0int,
{
    match b {
        BlockView::CodeBlock(a, _) => {
            lemma_attr(a);
        },
        _ => {},
    }
}

proof fn lemma_block_raw_block(b: BlockView)
    requires
        b is RawBlock,
    ensures
        dec_block_with(BlockKind::RawBlock, block_payload(b)) == Ok::<_, E>(b),
    decreases b, 0int,
{
    match b {
        BlockView::RawBlock(_, _) => {
            
        },
        _ => {},
    }
}

proof fn lemma_block_block_quote(b: BlockView)
    requires
        b is BlockQuote,
    ensures
        dec_block_with(BlockKind::BlockQuote, block_payload(b)) == Ok::<_, E>(b),
    decreases b, 0int,
{
    match b {
        BlockView::BlockQuote(c) => {
            lemma_blocks(c);
        },
        _ => {},
    }
}

proof fn lemma_block_ordered_list(b: BlockView)
    requires
        b is OrderedList,
    ensures
        dec_block_with(BlockKind::OrderedList, block_payload(b)) == Ok::<_, E>(b),
    decreases b, 0int,
{
    match b {
        BlockView::OrderedList(l, c) => {
            lemma_style_names(l.1);
            lemma_delim_names(l.2);
            lemma_block_lists(c);
        },
        _ => {},
    }
}

proof fn lemma_block_bullet_list(b: BlockView)
    requires
        b is BulletList,
    ensures
        dec_block_with(BlockKind::BulletList, block_payload(b)) == Ok::<_, E>(b),
    decreases b, 0int,
{
    match b {
        BlockView::BulletList(c) => {
            lemma_block_lists(c);
        },
        _ => {},
    }
}

proof fn lemma_block_definition_list(b: BlockView)
    requires
        b is DefinitionList,
    ensures
        dec_block_with(BlockKind::DefinitionList, block_payload(b)) == Ok::<_, E>(b),
    decreases b, 0int,
{
    match b {
        BlockView::DefinitionList(c) => {
            lemma_definitions(c);
        },
        _ => {},
    }
}

proof fn lemma_block_figure(b: BlockView)
    requires
        b is Figure,
    ensures
        dec_block_with(BlockKind::Figure, block_payload(b)) == Ok::<_, E>(b),
    decreases b, 0int,
{
    match b {
        BlockView::Figure(a, cap, c) => {
            lemma_attr(a);
            lemma_caption(cap);
            lemma_blocks(c);
        },
        _ => {},
    }
}

proof fn lemma_block_header(b: BlockView)
    requires
        b is Header,
    ensures
        dec_block_with(BlockKind::Header, block_payload(b)) == Ok::<_, E>(b),
    decreases b, 0int,
{
    match b {
        BlockView::Header(_, a, c) => {
            lemma_attr(a);
            lemma_inlines(c);
        },
        _ => {},
    }
}

proof fn lemma_block_table(b: BlockView)
    requires
        b is Table,
    ensures
        dec_block_with(BlockKind::Table, block_payload(b)) == Ok::<_, E>(b),
    decreases b, 0int,
{
    match b {
        BlockView::Table(a, cap, cols, head, bodies, foot) => {
            lemma_attr(a);
            lemma_caption(cap);
            lemma_col_specs(cols);
            lemma_attr(head.0);
            lemma_rows(head.1);
            lemma_bodies(bodies);
            lemma_attr(foot.0);
            lemma_rows(foot.1);
        },
        _ => {},
    }
}

proof fn lemma_block_div(b: BlockView)
    requires
        b is Div,
    ensures
        dec_block_with(BlockKind::Div, block_payload(b)) == Ok::<_, E>(b),
    decreases b, 0int,
{
    match b {
        BlockView::Div(a, c) => {
            lemma_attr(a);
            lemma_blocks(c);
        },
        _ => {},
    }
}

/// Where every key from `k` on is before `key`, `key` goes at the end.
proof fn lemma_position_end(t: MetaView, key: Text, k: int)
    requires
        0 <= k <= t.len(),
        forall|j: int| k <= j < t.len() ==> text_lt(t[j].0, key),
    ensures
        key_position(t, key, k) == t.len(),
    decreases t.len() - k,
{
    if k < t.len() {
        lemma_position_end(t, key, k + 1);
    }
}

/// Entries already in key order are left as they are by ordering them.
pub proof fn lemma_sorted_fixed(s: MetaView)
    requires
        entries_sorted(s),
    ensures
        sort_entries(s) == s,
    decreases s.len(),
{
    if s.len() > 0 {
        let t = s.drop_last();
        assert(entries_sorted(t));
        lemma_sorted_fixed(t);
        lemma_position_end(t, s[s.len() - 1].0, 0);
        assert(t.insert(t.len() as int, s[s.len() - 1]) =~= s);
    }
}

} // verus!
