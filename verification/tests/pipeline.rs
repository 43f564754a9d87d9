use typst::content::{Datetime, FontBook};
use typst::diag::{Diagnostics, Fatal, Span, WarnKind};
use typst::geom::PageSpec;
use typst::layout::{BlockBody, Document};
use typst::markup::{Binding, Expr, MarkupItem, SourceFile};
use typst::memo::Memo;
use typst::style::{Prop, StyleChain, StyleFrame};
use typst::world::{FileRecord, StaticWorld};
use typst::{compile, compile_with};

fn bytes(s: &str) -> Vec<u8> {
    s.as_bytes().to_vec()
}

fn sp(file: u64) -> Span {
    Span { file, start: 0, end: 0 }
}

fn par(file: u64, words: &[&str]) -> MarkupItem {
    MarkupItem::Par { words: words.iter().map(|w| bytes(w)).collect(), span: sp(file) }
}

/// An in-memory provider whose main source is file 1.
fn world_with(sources: Vec<SourceFile>) -> StaticWorld {
    StaticWorld {
        lib: Vec::new(),
        book: FontBook { families: vec![bytes("serif")] },
        main: 1,
        sources,
        files: Vec::new(),
        fonts: vec![vec![0, 1, 0, 0]],
        today: None,
    }
}

fn run(world: &StaticWorld) -> (Result<Document, Fatal>, Diagnostics, Memo) {
    let mut memo = Memo::new(true);
    let mut diags = Diagnostics::new();
    let r = compile(world, &mut memo, &mut diags);
    (r, diags, memo)
}

/// A page whose inner area fits exactly two default-leading lines.
fn two_line_page() -> PageSpec {
    PageSpec { width: 100000, height: 30000, margin: 0 }
}

fn line_texts(doc: &Document) -> Vec<Vec<u8>> {
    let mut out = Vec::new();
    for page in &doc.pages {
        for item in &page.items {
            if let BlockBody::Line { text, .. } = &item.block.body {
                out.push(text.clone());
            }
        }
    }
    out
}

#[test]
fn compiles_single_paragraph() {
    let world = world_with(vec![SourceFile { id: 1, items: vec![par(1, &["hello", "world"])] }]);
    let (r, diags, _) = run(&world);
    let doc = r.unwrap();
    assert_eq!(doc.pages.len(), 1);
    assert_eq!(diags.len(), 0);
    assert_eq!(doc.pages[0].items.len(), 1);
    match &doc.pages[0].items[0].block.body {
        BlockBody::Line { text, size } => {
            assert_eq!(text, &bytes("hello world"));
            assert_eq!(*size, 11000);
        }
        other => panic!("expected a line, got {:?}", other),
    }
}

#[test]
fn empty_document_has_one_empty_page() {
    let world = world_with(vec![SourceFile { id: 1, items: vec![] }]);
    let (r, diags, _) = run(&world);
    let doc = r.unwrap();
    assert_eq!(doc.pages.len(), 1);
    assert_eq!(doc.pages[0].items.len(), 0);
    assert_eq!(doc.pages[0].width, 595000);
    assert_eq!(doc.pages[0].height, 842000);
    assert_eq!(diags.warnings.len(), 0);
}

#[test]
fn determinism_two_compilations_agree() {
    let world = world_with(vec![SourceFile {
            id: 1,
            items: vec![
                par(1, &["first", "paragraph"]),
                MarkupItem::Scoped {
                    prop: Prop::TextSize,
                    value: Expr::Lit { value: 16000 },
                    body: vec![par(1, &["styled"])],
                    span: sp(1),
                },
            ],
        }]);
    let (r1, d1, _) = run(&world);
    let (r2, d2, _) = run(&world);
    assert_eq!(r1.unwrap(), r2.unwrap());
    assert_eq!(d1.warnings, d2.warnings);
}

#[test]
fn cache_transparency_disabled_cache_agrees() {
    let world = world_with(vec![SourceFile {
            id: 1,
            items: vec![par(1, &["alpha"]), par(1, &["beta"]), par(1, &["gamma"])],
        }]);
    let mut memo_on = Memo::new(true);
    let mut memo_off = Memo::new(false);
    let mut d1 = Diagnostics::new();
    let mut d2 = Diagnostics::new();
    let doc_on = compile(&world, &mut memo_on, &mut d1).unwrap();
    let doc_off = compile(&world, &mut memo_off, &mut d2).unwrap();
    assert_eq!(doc_on, doc_off);
    assert_eq!(d1.warnings, d2.warnings);
    assert!(memo_on.misses > 0);
    assert_eq!(memo_off.misses, 0);
    assert_eq!(memo_off.entries.len(), 0);
}

#[test]
fn cycle_of_length_one_is_detected() {
    let world = world_with(vec![SourceFile { id: 1, items: vec![MarkupItem::Import { id: 1, span: sp(1) }] }]);
    let (r, _, _) = run(&world);
    match r {
        Err(Fatal::Cyclic { chain, .. }) => assert_eq!(chain, vec![1, 1]),
        other => panic!("expected a cyclic-import error, got {:?}", other),
    }
}

#[test]
fn cycle_of_length_two_is_detected() {
    let world = world_with(vec![
        SourceFile { id: 1, items: vec![MarkupItem::Import { id: 2, span: sp(1) }] },
        SourceFile { id: 2, items: vec![MarkupItem::Import { id: 1, span: sp(2) }] },
    ]);
    let (r, _, _) = run(&world);
    match r {
        Err(Fatal::Cyclic { chain, .. }) => assert_eq!(chain, vec![1, 2, 1]),
        other => panic!("expected a cyclic-import error, got {:?}", other),
    }
}

#[test]
fn cycle_of_length_ten_is_detected() {
    let mut sources = Vec::new();
    for id in 1..=10u64 {
        let next = if id == 10 { 1 } else { id + 1 };
        sources.push(SourceFile { id, items: vec![MarkupItem::Import { id: next, span: sp(id) }] });
    }
    let world = world_with(sources);
    let (r, _, _) = run(&world);
    match r {
        Err(Fatal::Cyclic { chain, .. }) => {
            assert_eq!(chain, vec![1, 2, 3, 4, 5, 6, 7, 8, 9, 10, 1]);
        }
        other => panic!("expected a cyclic-import error, got {:?}", other),
    }
}

#[test]
fn order_of_sibling_blocks_is_preserved() {
    let world = world_with(vec![SourceFile {
            id: 1,
            items: vec![
                par(1, &["one"]),
                par(1, &["two"]),
                par(1, &["three"]),
                par(1, &["four"]),
                par(1, &["five"]),
            ],
        }]);
    let (r, _, _) = run(&world);
    let doc = r.unwrap();
    let texts = line_texts(&doc);
    assert_eq!(
        texts,
        vec![bytes("one"), bytes("two"), bytes("three"), bytes("four"), bytes("five")]
    );
    let page = &doc.pages[0];
    for k in 1..page.items.len() {
        assert!(page.items[k - 1].y < page.items[k].y);
    }
}

#[test]
fn paragraph_of_one_and_a_half_pages_fragments_into_two_frames() {
    // The page fits two 14000-unit lines (28000 of 30000); three lines of
    // content need one and a half pages.  Each ten-byte word is 55000
    // units wide, so no two share a 100000-unit line.
    let world = world_with(vec![SourceFile {
            id: 1,
            items: vec![par(1, &["aaaaaaaaaa", "bbbbbbbbbb", "cccccccccc"])],
        }]);
    let mut memo = Memo::new(true);
    let mut diags = Diagnostics::new();
    let doc = compile_with(&world, two_line_page(), &mut memo, &mut diags).unwrap();
    assert_eq!(doc.pages.len(), 2);
    assert_eq!(doc.pages[0].items.len(), 2);
    assert_eq!(doc.pages[1].items.len(), 1);
    let texts = line_texts(&doc);
    assert_eq!(texts, vec![bytes("aaaaaaaaaa"), bytes("bbbbbbbbbb"), bytes("cccccccccc")]);
    assert_eq!(diags.warnings.len(), 0);
}

#[test]
fn oversized_block_overflows_with_warning() {
    // One image taller than the whole page: placed anyway, one warning.
    let world = world_with(vec![SourceFile {
            id: 1,
            items: vec![MarkupItem::Image { id: 7, width: 1000, height: 99000, span: sp(1) }],
        }]);
    let mut world = world;
    world.files = vec![FileRecord { id: 7, data: vec![0x89, 0x50, 0x4e, 0x47] }];
    let mut memo = Memo::new(true);
    let mut diags = Diagnostics::new();
    let doc = compile_with(&world, two_line_page(), &mut memo, &mut diags).unwrap();
    assert_eq!(doc.pages.len(), 1);
    assert_eq!(doc.pages[0].items.len(), 1);
    assert_eq!(diags.warnings.len(), 1);
    assert_eq!(diags.warnings[0].kind, WarnKind::Overflow);
}

#[test]
fn nested_style_does_not_leak_to_sibling() {
    let world = world_with(vec![SourceFile {
            id: 1,
            items: vec![
                MarkupItem::Scoped {
                    prop: Prop::TextSize,
                    value: Expr::Lit { value: 20000 },
                    body: vec![par(1, &["inner"])],
                    span: sp(1),
                },
                par(1, &["sibling"]),
            ],
        }]);
    let (r, _, _) = run(&world);
    let doc = r.unwrap();
    let page = &doc.pages[0];
    match &page.items[0].block.body {
        BlockBody::Line { size, .. } => assert_eq!(*size, 20000),
        other => panic!("expected a line, got {:?}", other),
    }
    match &page.items[1].block.body {
        BlockBody::Line { size, .. } => assert_eq!(*size, 11000),
        other => panic!("expected a line, got {:?}", other),
    }
}

#[test]
fn outer_style_is_visible_in_nested_scope_unless_overridden() {
    let world = world_with(vec![SourceFile {
            id: 1,
            items: vec![MarkupItem::Scoped {
                prop: Prop::Leading,
                value: Expr::Lit { value: 9000 },
                body: vec![MarkupItem::Scoped {
                    prop: Prop::TextSize,
                    value: Expr::Lit { value: 17000 },
                    body: vec![par(1, &["deep"])],
                    span: sp(1),
                }],
                span: sp(1),
            }],
        }]);
    let (r, _, _) = run(&world);
    let doc = r.unwrap();
    let item = &doc.pages[0].items[0];
    assert_eq!(item.block.height, 9000);
    match &item.block.body {
        BlockBody::Line { size, .. } => assert_eq!(*size, 17000),
        other => panic!("expected a line, got {:?}", other),
    }
}

#[test]
fn accumulating_indent_sums_across_scopes() {
    let world = world_with(vec![SourceFile {
            id: 1,
            items: vec![MarkupItem::Scoped {
                prop: Prop::Indent,
                value: Expr::Lit { value: 4000 },
                body: vec![MarkupItem::Scoped {
                    prop: Prop::Indent,
                    value: Expr::Lit { value: 2500 },
                    body: vec![par(1, &["indented"])],
                    span: sp(1),
                }],
                span: sp(1),
            }],
        }]);
    let (r, _, _) = run(&world);
    let doc = r.unwrap();
    let item = &doc.pages[0].items[0];
    assert_eq!(item.block.indent, 6500);
    // x offset is the margin plus the accumulated indent.
    assert_eq!(item.x, 72000 + 6500);
}

#[test]
fn missing_image_degrades_to_placeholder_and_one_warning() {
    let world = world_with(vec![SourceFile {
            id: 1,
            items: vec![
                par(1, &["before"]),
                MarkupItem::Image {
                    id: 99,
                    width: 30000,
                    height: 20000,
                    span: Span { file: 1, start: 10, end: 20 },
                },
                par(1, &["after"]),
            ],
        }]);
    let (r, diags, _) = run(&world);
    let doc = r.unwrap();
    assert_eq!(diags.warnings.len(), 1);
    assert_eq!(diags.warnings[0].kind, WarnKind::MissingImage);
    assert_eq!(diags.warnings[0].span, Span { file: 1, start: 10, end: 20 });
    let page = &doc.pages[0];
    assert_eq!(page.items.len(), 3);
    match &page.items[1].block.body {
        BlockBody::Holder { width } => assert_eq!(*width, 30000),
        other => panic!("expected a placeholder, got {:?}", other),
    }
}

#[test]
fn present_image_is_placed_without_warning() {
    let mut world = world_with(vec![SourceFile {
            id: 1,
            items: vec![MarkupItem::Image { id: 7, width: 30000, height: 20000, span: sp(1) }],
        }]);
    world.files = vec![FileRecord { id: 7, data: vec![0x89, 0x50, 0x4e, 0x47] }];
    let (r, diags, _) = run(&world);
    let doc = r.unwrap();
    assert_eq!(diags.warnings.len(), 0);
    match &doc.pages[0].items[0].block.body {
        BlockBody::ImageRef { id, width } => {
            assert_eq!(*id, 7);
            assert_eq!(*width, 30000);
        }
        other => panic!("expected an image, got {:?}", other),
    }
}

#[test]
fn incremental_edit_reuses_unchanged_pages() {
    // Four one-line paragraphs on two-line pages: two pages.  Editing one
    // character on the first page leaves the second page's blocks
    // unchanged, so its frame comes out of the cache.
    let before = world_with(vec![SourceFile {
            id: 1,
            items: vec![par(1, &["aaa"]), par(1, &["bbb"]), par(1, &["ccc"]), par(1, &["ddd"])],
        }]);
    let after = world_with(vec![SourceFile {
            id: 1,
            items: vec![par(1, &["aaz"]), par(1, &["bbb"]), par(1, &["ccc"]), par(1, &["ddd"])],
        }]);
    let mut memo = Memo::new(true);
    let mut d1 = Diagnostics::new();
    let doc1 = compile_with(&before, two_line_page(), &mut memo, &mut d1).unwrap();
    assert_eq!(doc1.pages.len(), 2);
    assert_eq!(memo.hits, 0);
    assert_eq!(memo.misses, 2);
    let mut d2 = Diagnostics::new();
    let doc2 = compile_with(&after, two_line_page(), &mut memo, &mut d2).unwrap();
    assert_eq!(doc2.pages.len(), 2);
    // The second page was answered from the cache; the edited first page
    // was rebuilt.
    assert_eq!(memo.hits, 1);
    assert_eq!(memo.misses, 3);
    assert_eq!(doc1.pages[1], doc2.pages[1]);
    assert_ne!(doc1.pages[0], doc2.pages[0]);
}

#[test]
fn recompiling_unchanged_world_hits_for_every_page() {
    let world = world_with(vec![SourceFile {
            id: 1,
            items: vec![par(1, &["aaa"]), par(1, &["bbb"]), par(1, &["ccc"]), par(1, &["ddd"])],
        }]);
    let mut memo = Memo::new(true);
    let mut d1 = Diagnostics::new();
    let doc1 = compile_with(&world, two_line_page(), &mut memo, &mut d1).unwrap();
    let mut d2 = Diagnostics::new();
    let doc2 = compile_with(&world, two_line_page(), &mut memo, &mut d2).unwrap();
    assert_eq!(doc1, doc2);
    assert_eq!(memo.hits, 2);
    assert_eq!(memo.misses, 2);
}

#[test]
fn missing_import_fails_with_file_not_found() {
    let world = world_with(vec![SourceFile {
            id: 1,
            items: vec![MarkupItem::Import { id: 5, span: Span { file: 1, start: 3, end: 9 } }],
        }]);
    let (r, _, _) = run(&world);
    match r {
        Err(Fatal::FileNotFound { id, span }) => {
            assert_eq!(id, 5);
            assert_eq!(span, Span { file: 1, start: 3, end: 9 });
        }
        other => panic!("expected a file-not-found error, got {:?}", other),
    }
}

#[test]
fn unbound_name_fails_evaluation() {
    let world = world_with(vec![SourceFile {
            id: 1,
            items: vec![MarkupItem::Bind {
                name: bytes("x"),
                init: Expr::Ref { name: bytes("nope"), span: sp(1) },
                span: sp(1),
            }],
        }]);
    let (r, _, _) = run(&world);
    match r {
        Err(Fatal::Unbound { name, .. }) => assert_eq!(name, bytes("nope")),
        other => panic!("expected an unbound-name error, got {:?}", other),
    }
}

#[test]
fn binding_feeds_style_value() {
    let world = world_with(vec![SourceFile {
            id: 1,
            items: vec![
                MarkupItem::Bind { name: bytes("big"), init: Expr::Lit { value: 21000 }, span: sp(1) },
                MarkupItem::Scoped {
                    prop: Prop::TextSize,
                    value: Expr::Ref { name: bytes("big"), span: sp(1) },
                    body: vec![par(1, &["sized"])],
                    span: sp(1),
                },
            ],
        }]);
    let (r, _, _) = run(&world);
    let doc = r.unwrap();
    match &doc.pages[0].items[0].block.body {
        BlockBody::Line { size, .. } => assert_eq!(*size, 21000),
        other => panic!("expected a line, got {:?}", other),
    }
}

#[test]
fn library_scope_seeds_evaluation() {
    let mut world = world_with(vec![SourceFile {
            id: 1,
            items: vec![MarkupItem::Scoped {
                prop: Prop::Leading,
                value: Expr::Ref { name: bytes("base-leading"), span: sp(1) },
                body: vec![par(1, &["lib"])],
                span: sp(1),
            }],
        }]);
    world.lib = vec![Binding { name: bytes("base-leading"), value: 12345 }];
    let (r, _, _) = run(&world);
    let doc = r.unwrap();
    assert_eq!(doc.pages[0].items[0].block.height, 12345);
}

#[test]
fn import_splices_content_and_merges_scope() {
    let world = world_with(vec![SourceFile {
            id: 1,
            items: vec![
                par(1, &["before"]),
                MarkupItem::Import { id: 2, span: sp(1) },
                MarkupItem::Scoped {
                    prop: Prop::TextSize,
                    value: Expr::Ref { name: bytes("exported"), span: sp(1) },
                    body: vec![par(1, &["after"])],
                    span: sp(1),
                },
            ],
        },
        SourceFile {
            id: 2,
            items: vec![
                MarkupItem::Bind {
                    name: bytes("exported"),
                    init: Expr::Lit { value: 19000 },
                    span: sp(2),
                },
                par(2, &["imported"]),
            ],
        },
    ]);
    let (r, _, _) = run(&world);
    let doc = r.unwrap();
    let texts = line_texts(&doc);
    assert_eq!(texts, vec![bytes("before"), bytes("imported"), bytes("after")]);
    match &doc.pages[0].items[2].block.body {
        BlockBody::Line { size, .. } => assert_eq!(*size, 19000),
        other => panic!("expected a line, got {:?}", other),
    }
}

#[test]
fn today_produces_date_line() {
    let mut world = world_with(vec![SourceFile { id: 1, items: vec![MarkupItem::Today { span: sp(1) }] }]);
    world.today = Some(Datetime { year: 2024, month: 5, day: 17 });
    let (r, diags, _) = run(&world);
    let doc = r.unwrap();
    assert_eq!(diags.warnings.len(), 0);
    match &doc.pages[0].items[0].block.body {
        BlockBody::DateLine { date, .. } => {
            assert_eq!(*date, Datetime { year: 2024, month: 5, day: 17 });
        }
        other => panic!("expected a date line, got {:?}", other),
    }
}

#[test]
fn unavailable_date_warns_and_places_nothing() {
    let world = world_with(vec![SourceFile {
            id: 1,
            items: vec![MarkupItem::Today { span: sp(1) }, par(1, &["text"])],
        }]);
    let (r, diags, _) = run(&world);
    let doc = r.unwrap();
    assert_eq!(diags.warnings.len(), 1);
    assert_eq!(diags.warnings[0].kind, WarnKind::DateUnavailable);
    assert_eq!(doc.pages[0].items.len(), 1);
}

#[test]
fn line_breaking_fills_lines_greedily() {
    // Default size 11000: a byte is 5500 units.  "abcd efg" is
    // 4*5500 + 5500 + 3*5500 = 44000 units, within 100000, so both words
    // share a line; adding "hijklmnopq" (55000) would exceed it.
    let world = world_with(vec![SourceFile { id: 1, items: vec![par(1, &["abcd", "efg", "hijklmnopq"])] }]);
    let mut memo = Memo::new(true);
    let mut diags = Diagnostics::new();
    let doc = compile_with(
        &world,
        PageSpec { width: 100000, height: 200000, margin: 0 },
        &mut memo,
        &mut diags,
    )
    .unwrap();
    let texts = line_texts(&doc);
    assert_eq!(texts, vec![bytes("abcd efg"), bytes("hijklmnopq")]);
}

#[test]
fn saturating_arithmetic_caps_at_maximum() {
    assert_eq!(typst::geom::sat_add(u64::MAX - 1, 1), u64::MAX);
    assert_eq!(typst::geom::sat_add(u64::MAX, 1), u64::MAX);
    assert_eq!(typst::geom::sat_sub(3, 5), 0);
    assert_eq!(typst::geom::sat_sub(5, 3), 2);
    assert_eq!(typst::geom::sat_mul(usize::MAX, 2), u64::MAX);
    assert_eq!(typst::geom::sat_mul(7, 6), 42);
}

#[test]
fn warnings_survive_a_later_fatal_error() {
    // A missing date warns during evaluation; a later cyclic import is
    // fatal; the warning must still be in the sink.
    let world = world_with(vec![SourceFile {
            id: 1,
            items: vec![
                MarkupItem::Today { span: sp(1) },
                MarkupItem::Import { id: 1, span: sp(1) },
            ],
        }]);
    let (r, diags, _) = run(&world);
    assert!(matches!(r, Err(Fatal::Cyclic { .. })));
    assert_eq!(diags.warnings.len(), 1);
    assert_eq!(diags.warnings[0].kind, WarnKind::DateUnavailable);
}

#[test]
fn style_resolution_picks_innermost_and_folds_accumulating() {
    let chain = StyleChain {
        frames: vec![
            StyleFrame { prop: Prop::TextSize, value: 10000 },
            StyleFrame { prop: Prop::Indent, value: 2000 },
            StyleFrame { prop: Prop::TextSize, value: 15000 },
            StyleFrame { prop: Prop::Indent, value: 3000 },
        ],
    };
    // First match from the innermost end wins for plain properties.
    assert_eq!(chain.resolve(Prop::TextSize), 15000);
    // Accumulating properties fold every matching frame.
    assert_eq!(chain.resolve(Prop::Indent), 5000);
    // Unset properties fall back to their default.
    assert_eq!(chain.resolve(Prop::Leading), 14000);
    // Pushing builds a new chain and leaves the shared one untouched.
    let pushed = chain.pushed(StyleFrame { prop: Prop::TextSize, value: 9000 });
    assert_eq!(pushed.resolve(Prop::TextSize), 9000);
    assert_eq!(chain.resolve(Prop::TextSize), 15000);
}

#[test]
fn content_exactly_filling_a_page_needs_no_second_page() {
    let world = world_with(vec![SourceFile {
        id: 1,
        items: vec![par(1, &["aaaaaaaaaa"]), par(1, &["bbbbbbbbbb"])],
    }]);
    // Two 14000-unit lines on a page whose inner height is exactly 28000:
    // the fit test is exact, so everything stays on one page.
    let mut memo = Memo::new(true);
    let mut diags = Diagnostics::new();
    let page = PageSpec { width: 100000, height: 28000, margin: 0 };
    let doc = compile_with(&world, page, &mut memo, &mut diags).unwrap();
    assert_eq!(doc.pages.len(), 1);
    assert_eq!(doc.pages[0].items.len(), 2);
}

#[test]
fn duplicate_source_identifiers_resolve_to_the_first() {
    let world = world_with(vec![
        SourceFile { id: 1, items: vec![par(1, &["first"])] },
        SourceFile { id: 1, items: vec![par(1, &["second"])] },
    ]);
    let (r, _, _) = run(&world);
    let doc = r.unwrap();
    assert_eq!(line_texts(&doc), vec![bytes("first")]);
}
