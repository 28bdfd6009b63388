use pandoc_ast::{
    Alignment, Block, Category, Citation, CitationMode, ColWidth, DecodeError, Expected, Format,
    Inline, ListNumberDelim, ListNumberStyle, MathType, MetaValue, Pandoc, PathStep, QuoteType,
};

fn attr(id: &str) -> (String, Vec<String>, Vec<(String, String)>) {
    (id.to_string(), vec!["c1".to_string()], vec![("k".to_string(), "v".to_string())])
}

fn s(x: &str) -> Inline {
    Inline::Str(x.to_string())
}

fn doc(version: Vec<u32>, blocks: Vec<Block>) -> Pandoc {
    Pandoc { meta: vec![], blocks, pandoc_api_version: version }
}

fn rich_document() -> Pandoc {
    let cell = |id: &str| (attr(id), Alignment::AlignCenter, 1i64, 2i64, vec![Block::Plain(vec![s(id)])]);
    let row = |id: &str| (attr(id), vec![cell(&format!("{}-cell", id))]);
    let table = Block::Table(
        attr("table"),
        (Some(vec![s("short")]), vec![Block::Para(vec![s("caption")])]),
        vec![
            (Alignment::AlignLeft, ColWidth::ColWidth(serde_json::Number::from_f64(0.25).unwrap())),
            (Alignment::AlignDefault, ColWidth::ColWidthDefault),
        ],
        (attr("head"), vec![row("h1")]),
        vec![(attr("body"), 1, vec![row("bh")], vec![row("b1"), row("b2")])],
        (attr("foot"), vec![row("f1")]),
    );
    let citation = Citation {
        citationId: "key".to_string(),
        citationPrefix: vec![s("see")],
        citationSuffix: vec![s("p. 3")],
        citationMode: CitationMode::AuthorInText,
        citationNoteNum: 4,
        citationHash: -7,
    };
    let inlines = vec![
        s("a"),
        Inline::Emph(vec![s("b")]),
        Inline::Underline(vec![]),
        Inline::Strong(vec![Inline::Space]),
        Inline::Strikeout(vec![Inline::SoftBreak]),
        Inline::Superscript(vec![Inline::LineBreak]),
        Inline::Subscript(vec![s("2")]),
        Inline::SmallCaps(vec![s("sc")]),
        Inline::Quoted(QuoteType::DoubleQuote, vec![s("q")]),
        Inline::Cite(vec![citation], vec![s("[1]")]),
        Inline::Code(attr("code"), "x = 1".to_string()),
        Inline::Math(MathType::InlineMath, "e^x".to_string()),
        Inline::RawInline(Format("tex".to_string()), "\\cake".to_string()),
        Inline::Link(attr("l"), vec![s("link")], ("http://a".to_string(), "t".to_string())),
        Inline::Image(attr("i"), vec![s("alt")], ("pic.png".to_string(), "".to_string())),
        Inline::Note(vec![Block::Para(vec![s("note")])]),
        Inline::Span(attr("span"), vec![s("in span")]),
    ];
    let blocks = vec![
        Block::Plain(vec![s("plain")]),
        Block::Para(inlines),
        Block::LineBlock(vec![vec![s("l1")], vec![s("l2")]]),
        Block::CodeBlock(attr("cb"), "fn main() {}".to_string()),
        Block::RawBlock(Format("html".to_string()), "<br>".to_string()),
        Block::BlockQuote(vec![Block::Para(vec![s("quoted")])]),
        Block::OrderedList(
            (3, ListNumberStyle::LowerRoman, ListNumberDelim::TwoParens),
            vec![vec![Block::Plain(vec![s("one")])], vec![]],
        ),
        Block::BulletList(vec![vec![Block::Plain(vec![s("bullet")])]]),
        Block::DefinitionList(vec![(vec![s("term")], vec![vec![Block::Plain(vec![s("def")])]])]),
        Block::Figure(attr("fig"), (None, vec![]), vec![Block::Plain(vec![s("figure")])]),
        Block::Header(2, attr("h"), vec![s("Title")]),
        Block::HorizontalRule,
        table,
        Block::Div(attr("div"), vec![Block::Null]),
        Block::Null,
    ];
    Pandoc {
        meta: vec![
            (
                "info".to_string(),
                MetaValue::MetaMap(vec![
                    ("body".to_string(), MetaValue::MetaBlocks(vec![Block::Null])),
                    ("flag".to_string(), MetaValue::MetaBool(true)),
                    ("list".to_string(), MetaValue::MetaList(vec![MetaValue::MetaBool(false)])),
                    ("name".to_string(), MetaValue::MetaString("n".to_string())),
                ]),
            ),
            ("title".to_string(), MetaValue::MetaInlines(vec![s("T")])),
        ],
        blocks,
        pandoc_api_version: vec![1, 23, 1],
    }
}

#[test]
fn round_trip_of_every_kind_of_node() {
    let d = rich_document();
    let text = d.to_json();
    assert_eq!(Pandoc::from_json(&text), Ok(rich_document()));
}

#[test]
fn round_trip_through_json_value() {
    let d = rich_document();
    assert_eq!(Pandoc::from_json_value(&d.to_json_value()), Ok(rich_document()));
}

#[test]
fn column_width_default_stays_apart_from_zero() {
    let zero = ColWidth::ColWidth(serde_json::Number::from_f64(0.0).unwrap());
    let cols = vec![(Alignment::AlignRight, zero.clone()), (Alignment::AlignRight, ColWidth::ColWidthDefault)];
    let table = Block::Table(
        attr(""),
        (None, vec![]),
        cols.clone(),
        (attr(""), vec![]),
        vec![],
        (attr(""), vec![]),
    );
    let read = Pandoc::from_json(&doc(vec![1, 23], vec![table]).to_json()).unwrap();
    match &read.blocks[0] {
        Block::Table(_, _, c, _, _, _) => {
            assert_eq!(c, &cols);
            assert_ne!(c[0].1, c[1].1);
        },
        _ => panic!("not a table"),
    }
}

#[test]
fn writes_the_tagged_form() {
    let d = doc(vec![1, 23], vec![Block::Para(vec![s("a"), Inline::Space])]);
    assert_eq!(
        d.to_json(),
        r#"{"pandoc-api-version":[1,23],"meta":{},"blocks":[{"t":"Para","c":[{"t":"Str","c":"a"},{"t":"Space"}]}]}"#
    );
}

#[test]
fn reads_keys_in_any_order() {
    let text = r#"{"blocks":[{"c":[{"c":"Teil","t":"Str"},{"t":"Space"},{"t":"SoftBreak","c":[]}],"t":"Para"}],"meta":{"title":{"t":"MetaString","c":"x"}},"pandoc-api-version":[1,22,2,1]}"#;
    let d = Pandoc::from_json(text).unwrap();
    assert_eq!(d.pandoc_api_version, vec![1, 22, 2, 1]);
    assert_eq!(d.meta, vec![("title".to_string(), MetaValue::MetaString("x".to_string()))]);
    assert_eq!(d.blocks, vec![Block::Para(vec![s("Teil"), Inline::Space, Inline::SoftBreak])]);
}

#[test]
fn reads_an_integer_column_width() {
    let text = r#"{"pandoc-api-version":[1,23],"meta":{},"blocks":[{"t":"Table","c":[["",[],[]],[null,[]],[[{"t":"AlignLeft"},{"t":"ColWidth","c":1}]],[["",[],[]],[]],[],[["",[],[]],[]]]}]}"#;
    let d = Pandoc::from_json(text).unwrap();
    match &d.blocks[0] {
        Block::Table(_, _, cols, _, _, _) => {
            assert_eq!(cols[0].1, ColWidth::ColWidth(serde_json::Number::from(1i64)));
        },
        _ => panic!("not a table"),
    }
}

fn with_version(v: &str) -> String {
    format!(r#"{{"pandoc-api-version":{},"meta":{{}},"blocks":[]}}"#, v)
}

#[test]
fn version_below_the_minimum_is_refused() {
    assert_eq!(
        Pandoc::from_json(&with_version("[1,19]")),
        Err(DecodeError::UnsupportedVersion { required: (1, 20), found: (1, 19) })
    );
}

#[test]
fn supported_versions_are_read() {
    assert_eq!(Pandoc::from_json(&with_version("[1,20]")).unwrap().pandoc_api_version, vec![1, 20]);
    assert_eq!(Pandoc::from_json(&with_version("[1,22,5]")).unwrap().pandoc_api_version, vec![1, 22, 5]);
}

#[test]
fn other_major_version_is_refused() {
    assert_eq!(
        Pandoc::from_json(&with_version("[2,0]")),
        Err(DecodeError::UnsupportedVersion { required: (1, 20), found: (2, 0) })
    );
}

#[test]
fn version_one_point_seventeen_is_refused() {
    let s = r#"{"pandoc-api-version":[1,17,0,4],"meta":{"title":{"t":"MetaInlines","c":[{"t":"Str","c":"Grundlagen"}]}},"blocks":[{"t":"Para","c":[{"t":"Str","c":"Teil"}]}]}"#;
    assert_eq!(
        Pandoc::from_json(s),
        Err(DecodeError::UnsupportedVersion { required: (1, 20), found: (1, 17) })
    );
}

#[test]
fn missing_version_is_refused() {
    assert_eq!(Pandoc::from_json(r#"{"meta":{},"blocks":[]}"#), Err(DecodeError::MissingVersionField));
    assert_eq!(Pandoc::from_json(&with_version("[1]")), Err(DecodeError::MissingVersionField));
    assert_eq!(Pandoc::from_json(&with_version(r#"[1,"20"]"#)), Err(DecodeError::MissingVersionField));
    assert_eq!(Pandoc::from_json("[1,20]"), Err(DecodeError::MissingVersionField));
}

#[test]
fn unknown_block_is_refused() {
    let text = r#"{"pandoc-api-version":[1,23],"meta":{},"blocks":[{"t":"NotARealBlock","c":[]}]}"#;
    assert_eq!(
        Pandoc::from_json(text),
        Err(DecodeError::UnknownDiscriminator {
            category: Category::Block,
            tag: "NotARealBlock".to_string(),
            path: vec![PathStep::Key("blocks".to_string()), PathStep::Index(0)],
        })
    );
}

#[test]
fn wrong_shape_is_refused_with_its_path() {
    let text = r#"{"pandoc-api-version":[1,23],"meta":{},"blocks":[{"t":"Null"},{"t":"Header","c":[1,["",[],[]]]}]}"#;
    assert_eq!(
        Pandoc::from_json(text),
        Err(DecodeError::ShapeMismatch {
            category: Category::Block,
            expected: Expected::Tuple(3),
            path: vec![PathStep::Key("blocks".to_string()), PathStep::Index(1), PathStep::Key("c".to_string())],
        })
    );
}

#[test]
fn payload_of_wrong_kind_is_refused() {
    let text = r#"{"pandoc-api-version":[1,23],"meta":{},"blocks":[{"t":"Para","c":[{"t":"Str","c":5}]}]}"#;
    assert_eq!(
        Pandoc::from_json(text),
        Err(DecodeError::ShapeMismatch {
            category: Category::Inline,
            expected: Expected::String,
            path: vec![
                PathStep::Key("blocks".to_string()),
                PathStep::Index(0),
                PathStep::Key("c".to_string()),
                PathStep::Index(0),
                PathStep::Key("c".to_string()),
            ],
        })
    );
}

#[test]
fn missing_payload_is_refused() {
    let text = r#"{"pandoc-api-version":[1,23],"meta":{},"blocks":[{"t":"Para"}]}"#;
    assert_eq!(
        Pandoc::from_json(text),
        Err(DecodeError::ShapeMismatch {
            category: Category::Block,
            expected: Expected::Payload,
            path: vec![PathStep::Key("blocks".to_string()), PathStep::Index(0)],
        })
    );
}

#[test]
fn missing_blocks_field_is_refused() {
    let text = r#"{"pandoc-api-version":[1,23],"meta":{}}"#;
    assert_eq!(
        Pandoc::from_json(text),
        Err(DecodeError::ShapeMismatch {
            category: Category::Document,
            expected: Expected::Field,
            path: vec![PathStep::Key("blocks".to_string())],
        })
    );
}

#[test]
fn malformed_text_is_refused() {
    match Pandoc::from_json("{\"pandoc-api-version\": [1, 23],") {
        Err(DecodeError::MalformedJson { line, .. }) => assert_eq!(line, 1),
        other => panic!("unexpected {:?}", other),
    }
}

#[test]
fn filter_reads_changes_and_writes() {
    let input = doc(vec![1, 23], vec![Block::Para(vec![s("a")])]).to_json();
    let out = pandoc_ast::filter(input, |mut d| {
        d.blocks.push(Block::HorizontalRule);
        d
    })
    .unwrap();
    assert_eq!(
        Pandoc::from_json(&out),
        Ok(doc(vec![1, 23], vec![Block::Para(vec![s("a")]), Block::HorizontalRule]))
    );
    assert_eq!(
        pandoc_ast::filter(with_version("[1,19]"), |d| d),
        Err(DecodeError::UnsupportedVersion { required: (1, 20), found: (1, 19) })
    );
}

#[test]
fn metadata_key_order_does_not_matter() {
    let one = r#"{"pandoc-api-version":[1,23],"meta":{"b":{"t":"MetaBool","c":true},"a":{"t":"MetaMap","c":{"y":{"t":"MetaString","c":"1"},"x":{"t":"MetaString","c":"2"}}}},"blocks":[]}"#;
    let two = r#"{"blocks":[],"meta":{"a":{"t":"MetaMap","c":{"x":{"t":"MetaString","c":"2"},"y":{"t":"MetaString","c":"1"}}},"b":{"t":"MetaBool","c":true}},"pandoc-api-version":[1,23]}"#;
    let d = Pandoc::from_json(one).unwrap();
    assert_eq!(Pandoc::from_json(two).unwrap(), d);
    assert_eq!(d.meta[0].0, "a");
    assert_eq!(d.meta[1].0, "b");
    assert_eq!(d.to_json(), Pandoc::from_json(two).unwrap().to_json());
}

#[test]
fn format() {
    let text = r#"{"pandoc-api-version":[1,23],"meta":{},"blocks":[{"t":"RawBlock","c":["hello","x"]}]}"#;
    match &Pandoc::from_json(text).unwrap().blocks[0] {
        Block::RawBlock(format, _) => assert_eq!(format.0, "hello"),
        _ => panic!("not a raw block"),
    }
}

#[test]
fn block() {
    let text = r#"{"pandoc-api-version":[1,23],"meta":{},"blocks":[{"t":"Para","c":[{"t":"RawInline","c":["tex","\\cake"]}]}]}"#;
    let d = Pandoc::from_json(text).unwrap();
    let para = match &d.blocks[0] {
        Block::Para(para) => para,
        _ => panic!("not a para"),
    };
    assert_eq!(para.len(), 1);
    match &para[0] {
        Inline::RawInline(format, text) => {
            assert_eq!(format.0, "tex");
            assert_eq!(text, "\\cake");
        },
        _ => panic!("not a rawinline"),
    }
}
