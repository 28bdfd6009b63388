use pandoc_ast::{
    walk_inline, walk_pandoc, Alignment, Attr, Block, Inline, MetaValue, MutVisitor, NoOp, Pandoc,
    Row, Step,
};

fn s(x: &str) -> Inline {
    Inline::Str(x.to_string())
}

fn attr(id: &str) -> Attr {
    (id.to_string(), vec![], vec![])
}

fn doc(blocks: Vec<Block>) -> Pandoc {
    Pandoc { meta: vec![], blocks, pandoc_api_version: vec![1, 23] }
}

struct Upper {
    seen: Vec<String>,
}

impl MutVisitor for Upper {
    fn visit_inline(&mut self, inline: &mut Inline) -> Step {
        if let Inline::Str(ref mut t) = *inline {
            self.seen.push(t.clone());
            *t = t.to_uppercase();
            return Step::Skip;
        }
        Step::Walk
    }

    fn visit_block(&mut self, _block: &mut Block) -> Step {
        Step::Walk
    }

    fn visit_attr(&mut self, _attr: &mut Attr) {}

    fn visit_meta(&mut self, _key: &str, _meta: &mut MetaValue) -> Step {
        Step::Walk
    }

    fn visit_vec_block(&mut self, _vec_block: &mut Vec<Block>) -> Step {
        Step::Walk
    }

    fn visit_vec_inline(&mut self, _vec_inline: &mut Vec<Inline>) -> Step {
        Step::Walk
    }

    fn visit_rows(&mut self, _rows: &mut Vec<Row>) -> Step {
        Step::Walk
    }
}

struct NoNotes {
    seen: Vec<String>,
}

impl MutVisitor for NoNotes {
    fn visit_vec_inline(&mut self, vec_inline: &mut Vec<Inline>) -> Step {
        vec_inline.retain(|inline| !matches!(inline, Inline::Note(_)));
        Step::Walk
    }

    fn visit_inline(&mut self, inline: &mut Inline) -> Step {
        if let Inline::Str(t) = inline {
            self.seen.push(t.clone());
        }
        Step::Walk
    }

    fn visit_block(&mut self, _block: &mut Block) -> Step {
        Step::Walk
    }

    fn visit_attr(&mut self, _attr: &mut Attr) {}

    fn visit_meta(&mut self, _key: &str, _meta: &mut MetaValue) -> Step {
        Step::Walk
    }

    fn visit_vec_block(&mut self, _vec_block: &mut Vec<Block>) -> Step {
        Step::Walk
    }

    fn visit_rows(&mut self, _rows: &mut Vec<Row>) -> Step {
        Step::Walk
    }
}

struct Order {
    attrs: Vec<String>,
}

impl MutVisitor for Order {
    fn visit_attr(&mut self, attr: &mut Attr) {
        self.attrs.push(attr.0.clone());
    }

    fn visit_block(&mut self, _block: &mut Block) -> Step {
        Step::Walk
    }

    fn visit_inline(&mut self, _inline: &mut Inline) -> Step {
        Step::Walk
    }

    fn visit_meta(&mut self, _key: &str, _meta: &mut MetaValue) -> Step {
        Step::Walk
    }

    fn visit_vec_block(&mut self, _vec_block: &mut Vec<Block>) -> Step {
        Step::Walk
    }

    fn visit_vec_inline(&mut self, _vec_inline: &mut Vec<Inline>) -> Step {
        Step::Walk
    }

    fn visit_rows(&mut self, _rows: &mut Vec<Row>) -> Step {
        Step::Walk
    }
}

/// Works after the children, by walking them itself.
struct CountAfter {
    log: Vec<String>,
}

impl MutVisitor for CountAfter {
    fn visit_inline(&mut self, inline: &mut Inline) -> Step {
        if let Inline::Emph(_) = inline {
            walk_inline(self, inline);
            self.log.push("emph done".to_string());
            return Step::Skip;
        }
        if let Inline::Str(t) = inline {
            self.log.push(t.clone());
        }
        Step::Walk
    }

    fn visit_block(&mut self, _block: &mut Block) -> Step {
        Step::Walk
    }

    fn visit_attr(&mut self, _attr: &mut Attr) {}

    fn visit_meta(&mut self, _key: &str, _meta: &mut MetaValue) -> Step {
        Step::Walk
    }

    fn visit_vec_block(&mut self, _vec_block: &mut Vec<Block>) -> Step {
        Step::Walk
    }

    fn visit_vec_inline(&mut self, _vec_inline: &mut Vec<Inline>) -> Step {
        Step::Walk
    }

    fn visit_rows(&mut self, _rows: &mut Vec<Row>) -> Step {
        Step::Walk
    }
}

fn sample() -> Pandoc {
    let mut d = doc(vec![
        Block::Para(vec![s("hi"), Inline::Space, Inline::Emph(vec![s("deep"), Inline::Strong(vec![s("er")])])]),
        Block::BulletList(vec![vec![Block::Plain(vec![s("item")])]]),
        Block::Header(1, attr("h"), vec![Inline::Note(vec![Block::Para(vec![s("note")])])]),
    ]);
    d.meta.push(("title".to_string(), MetaValue::MetaInlines(vec![s("t")])));
    d
}

#[test]
fn default_visitor_changes_nothing() {
    let mut d = sample();
    walk_pandoc(&mut NoOp, &mut d);
    assert_eq!(d, sample());
}

#[test]
fn upper_case_of_text_only() {
    let mut v = Upper { seen: vec![] };
    let mut d = doc(vec![Block::Para(vec![s("hi"), Inline::Space])]);
    walk_pandoc(&mut v, &mut d);
    assert_eq!(d, doc(vec![Block::Para(vec![s("HI"), Inline::Space])]));
}

#[test]
fn upper_case_reaches_nested_text() {
    let mut v = Upper { seen: vec![] };
    let mut d = sample();
    walk_pandoc(&mut v, &mut d);
    assert_eq!(v.seen, vec!["t", "hi", "deep", "er", "item", "note"]);
    match &d.blocks[0] {
        Block::Para(c) => assert_eq!(
            c,
            &vec![s("HI"), Inline::Space, Inline::Emph(vec![s("DEEP"), Inline::Strong(vec![s("ER")])])]
        ),
        _ => panic!("not a para"),
    }
}

#[test]
fn notes_are_dropped_and_never_visited() {
    let mut v = NoNotes { seen: vec![] };
    let mut d = doc(vec![Block::Para(vec![
        s("a"),
        Inline::Note(vec![Block::Para(vec![s("inside")])]),
        s("b"),
    ])]);
    walk_pandoc(&mut v, &mut d);
    assert_eq!(d, doc(vec![Block::Para(vec![s("a"), s("b")])]));
    assert_eq!(v.seen, vec!["a", "b"]);
}

fn cell(id: &str) -> (Attr, Alignment, i64, i64, Vec<Block>) {
    (attr(id), Alignment::AlignDefault, 1, 1, vec![])
}

#[test]
fn table_is_walked_head_bodies_foot() {
    let table = Block::Table(
        attr("table"),
        (None, vec![]),
        vec![],
        (attr("head"), vec![(attr("head-row"), vec![cell("head-cell")])]),
        vec![
            (attr("body1"), 0, vec![], vec![(attr("body1-row"), vec![cell("body1-cell")])]),
            (attr("body2"), 0, vec![(attr("body2-head-row"), vec![])], vec![(attr("body2-row"), vec![cell("body2-cell")])]),
        ],
        (attr("foot"), vec![(attr("foot-row"), vec![cell("foot-cell")])]),
    );
    let mut v = Order { attrs: vec![] };
    let mut d = doc(vec![table]);
    walk_pandoc(&mut v, &mut d);
    assert_eq!(
        v.attrs,
        vec![
            "table", "head", "head-row", "head-cell", "body1", "body1-row", "body1-cell", "body2",
            "body2-head-row", "body2-row", "body2-cell", "foot", "foot-row", "foot-cell",
        ]
    );
}

#[test]
fn visitor_can_work_after_the_children() {
    let mut v = CountAfter { log: vec![] };
    let mut d = doc(vec![Block::Para(vec![Inline::Emph(vec![s("x"), s("y")]), s("z")])]);
    walk_pandoc(&mut v, &mut d);
    assert_eq!(v.log, vec!["x", "y", "emph done", "z"]);
}
