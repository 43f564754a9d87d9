//! The typesetting engine: from content to a paginated document.
//!
//! Layout is a single-pass, constraint-driven descent over the content
//! tree.  It first *collects* the tree into a flat run of blocks — each
//! paragraph is broken greedily into lines of the inner page width, each
//! line one block of the resolved leading; images become one atomic block
//! each — resolving styles through the chain as it descends.  The run is
//! then *split* greedily into page groups by the inner page height:
//! content that does not fit the remaining space of a page is deferred
//! whole to the next page, and an atomic block taller than a whole page
//! is placed anyway, overflowing, with a warning.  Each group finally
//! becomes one fixed-size frame of positioned items.  Sibling order is
//! preserved end to end, and a missing image degrades to a placeholder
//! item plus a warning, never a failure.

use vstd::prelude::*;

use crate::content::{
    content_size, content_view, contents_size, contents_view, lemma_contents_size_drop,
    lemma_contents_view_len, Content, ContentV, Datetime,
};
use crate::diag::{Diagnostics, Span, WarnKind, Warning};
use crate::eval::clone_bytes;
use crate::markup::words_view;
use crate::geom::{
    sat_add, sat_mul, sat_sub, spec_sat_add, spec_sat_mul, spec_sat_sub, PageSpec,
};
use crate::style::{spec_resolve, Prop, StyleChain, StyleFrame};
use crate::world::{World, WorldModel};

verus! {

/// What one block of a frame shows.
#[derive(Debug, PartialEq, Eq)]
pub enum BlockBody {
    /// One shaped paragraph line.
    Line { text: Vec<u8>, size: u64 },
    /// One image, by file identifier, with its width.
    ImageRef { id: u64, width: u64 },
    /// A visible placeholder for an unresolvable image.
    Holder { width: u64 },
    /// A date line.
    DateLine { date: Datetime, size: u64 },
}

/// The mathematical value of a [`BlockBody`].
#[verifier::ext_equal]
pub ghost enum BlockBodyV {
    /// One shaped paragraph line.
    Line { text: Seq<u8>, size: u64 },
    /// One image, by file identifier, with its width.
    ImageRef { id: u64, width: u64 },
    /// A visible placeholder for an unresolvable image.
    Holder { width: u64 },
    /// A date line.
    DateLine { date: Datetime, size: u64 },
}

impl View for BlockBody {
    type V = BlockBodyV;

    open spec fn view(&self) -> BlockBodyV {
        match self {
            BlockBody::Line { text, size } => BlockBodyV::Line { text: text@, size: *size },
            BlockBody::ImageRef { id, width } => BlockBodyV::ImageRef { id: *id, width: *width },
            BlockBody::Holder { width } => BlockBodyV::Holder { width: *width },
            BlockBody::DateLine { date, size } => BlockBodyV::DateLine {
                date: *date,
                size: *size,
            },
        }
    }
}

/// One atomic unit of flow layout: a piece of content that is never
/// split across pages.
#[derive(Debug, PartialEq, Eq)]
pub struct Block {
    /// The vertical space the block consumes.
    pub height: u64,
    /// The resolved extra indentation of the block.
    pub indent: u64,
    /// The span of the content the block came from.
    pub span: Span,
    /// What the block shows.
    pub body: BlockBody,
}

/// The mathematical value of a [`Block`].
#[verifier::ext_equal]
pub ghost struct BlockV {
    /// The vertical space the block consumes.
    pub height: u64,
    /// The resolved extra indentation of the block.
    pub indent: u64,
    /// The span of the content the block came from.
    pub span: Span,
    /// What the block shows.
    pub body: BlockBodyV,
}

impl View for Block {
    type V = BlockV;

    open spec fn view(&self) -> BlockV {
        BlockV { height: self.height, indent: self.indent, span: self.span, body: self.body@ }
    }
}

/// The mathematical value of a run of blocks.
pub open spec fn blocks_view(bs: Seq<Block>) -> Seq<BlockV> {
    bs.map_values(|b: Block| b@)
}

/// The mathematical value of a sequence of page groups.
pub open spec fn groups_view(gs: Seq<Vec<Block>>) -> Seq<Seq<BlockV>> {
    gs.map_values(|g: Vec<Block>| blocks_view(g@))
}

/// One item placed in a frame: a block at a fixed offset.
#[derive(Debug, PartialEq, Eq)]
pub struct FrameItem {
    /// Horizontal offset of the item within the frame.
    pub x: u64,
    /// Vertical offset of the item within the frame.
    pub y: u64,
    /// The block placed there.
    pub block: Block,
}

/// The mathematical value of a [`FrameItem`].
#[verifier::ext_equal]
pub ghost struct FrameItemV {
    /// Horizontal offset of the item within the frame.
    pub x: u64,
    /// Vertical offset of the item within the frame.
    pub y: u64,
    /// The block placed there.
    pub block: BlockV,
}

impl View for FrameItem {
    type V = FrameItemV;

    open spec fn view(&self) -> FrameItemV {
        FrameItemV { x: self.x, y: self.y, block: self.block@ }
    }
}

/// One page of the document: a fixed-size canvas of positioned items.
#[derive(Debug, PartialEq, Eq)]
pub struct Frame {
    /// The page width.
    pub width: u64,
    /// The page height.
    pub height: u64,
    /// The placed items, in document order.
    pub items: Vec<FrameItem>,
}

/// The mathematical value of a [`Frame`].
#[verifier::ext_equal]
pub ghost struct FrameV {
    /// The page width.
    pub width: u64,
    /// The page height.
    pub height: u64,
    /// The placed items, in document order.
    pub items: Seq<FrameItemV>,
}

impl View for Frame {
    type V = FrameV;

    open spec fn view(&self) -> FrameV {
        FrameV {
            width: self.width,
            height: self.height,
            items: self.items@.map_values(|it: FrameItem| it@),
        }
    }
}

/// A finished document: one frame per page, in order.
#[derive(Debug, PartialEq, Eq)]
pub struct Document {
    /// The pages, in order.
    pub pages: Vec<Frame>,
}

/// The mathematical value of a [`Document`].
#[verifier::ext_equal]
pub ghost struct DocumentV {
    /// The pages, in order.
    pub pages: Seq<FrameV>,
}

impl View for Document {
    type V = DocumentV;

    open spec fn view(&self) -> DocumentV {
        DocumentV { pages: self.pages@.map_values(|f: Frame| f@) }
    }
}

/// The width a word occupies: one glyph slot of half the text size per
/// byte.  Shaping with real glyph metrics is outside this crate; this
/// fixed-advance rule is the measuring rule the engine is specified over.
pub open spec fn spec_word_width(w: Seq<u8>, size: u64) -> u64 {
    spec_sat_mul(w.len(), size / 2)
}

/// Greedy line breaking: words are appended to the current line while the
/// line, one inter-word space included, stays within `cap`; a word that
/// does not fit starts the next line.  A word wider than the whole line
/// width stands alone on its line, overflowing horizontally.  `cur` is
/// the line under construction and `curw` its width so far.
pub open spec fn spec_fill(
    words: Seq<Seq<u8>>,
    cap: u64,
    size: u64,
    cur: Seq<u8>,
    curw: u64,
) -> Seq<Seq<u8>>
    decreases words.len(),
{
    if words.len() == 0 {
        if cur.len() == 0 {
            Seq::empty()
        } else {
            seq![cur]
        }
    } else {
        let w = words[0];
        let ww = spec_word_width(w, size);
        if cur.len() == 0 {
            spec_fill(words.drop_first(), cap, size, w, ww)
        } else {
            let neww = spec_sat_add(curw, spec_sat_add(size / 2, ww));
            if neww <= cap {
                spec_fill(words.drop_first(), cap, size, cur + seq![32u8] + w, neww)
            } else {
                seq![cur] + spec_fill(words.drop_first(), cap, size, w, ww)
            }
        }
    }
}

/// What collecting yields: the flat run of blocks and the warnings that
/// arose on the way.
#[verifier::ext_equal]
pub ghost struct CollectOut {
    /// The blocks, in document order.
    pub blocks: Seq<BlockV>,
    /// The warnings recorded, in order.
    pub warns: Seq<Warning>,
}

/// The blocks one paragraph collects to: one line block per greedily
/// broken line, each of the resolved leading, text size and indent.
pub open spec fn spec_par_blocks(
    words: Seq<Seq<u8>>,
    chain: Seq<StyleFrame>,
    page: PageSpec,
    span: Span,
) -> Seq<BlockV> {
    let size = spec_resolve(chain, Prop::TextSize);
    let leading = spec_resolve(chain, Prop::Leading);
    let indent = spec_resolve(chain, Prop::Indent);
    let cap = spec_sat_sub(page.spec_inner_width(), indent);
    spec_fill(words, cap, size, Seq::empty(), 0).map_values(
        |l: Seq<u8>| BlockV { height: leading, indent, span, body: BlockBodyV::Line { text: l, size } },
    )
}

/// Collecting one content node under a style chain, as a pure function of
/// the world model: a paragraph becomes its line blocks; an image whose
/// file the world resolves becomes one image block and one it does not
/// becomes a placeholder block of the same size plus one warning; a date
/// becomes one date line; a style override collects its children under
/// the extended chain.
pub open spec fn spec_collect_one(
    m: WorldModel,
    c: ContentV,
    chain: Seq<StyleFrame>,
    page: PageSpec,
) -> CollectOut
    decreases content_size(c), 0nat,
{
    match c {
        ContentV::Par { words, span } => CollectOut {
            blocks: spec_par_blocks(words, chain, page, span),
            warns: Seq::empty(),
        },
        ContentV::Image { id, width, height, span } => {
            let indent = spec_resolve(chain, Prop::Indent);
            if m.files.dom().contains(id) {
                CollectOut {
                    blocks: seq![
                        BlockV { height, indent, span, body: BlockBodyV::ImageRef { id, width } },
                    ],
                    warns: Seq::empty(),
                }
            } else {
                CollectOut {
                    blocks: seq![
                        BlockV { height, indent, span, body: BlockBodyV::Holder { width } },
                    ],
                    warns: seq![Warning { span, kind: WarnKind::MissingImage }],
                }
            }
        },
        ContentV::Date { date, span } => {
            let size = spec_resolve(chain, Prop::TextSize);
            let leading = spec_resolve(chain, Prop::Leading);
            let indent = spec_resolve(chain, Prop::Indent);
            CollectOut {
                blocks: seq![
                    BlockV {
                        height: leading,
                        indent,
                        span,
                        body: BlockBodyV::DateLine { date, size },
                    },
                ],
                warns: Seq::empty(),
            }
        },
        ContentV::Styled { prop, value, body, span } => spec_collect_list(
            m,
            body,
            chain.push(StyleFrame { prop, value }),
            page,
        ),
    }
}

/// Collecting a sequence of sibling nodes, in document order.
pub open spec fn spec_collect_list(
    m: WorldModel,
    cs: Seq<ContentV>,
    chain: Seq<StyleFrame>,
    page: PageSpec,
) -> CollectOut
    decreases contents_size(cs), 1nat,
    via spec_collect_list_decreases
{
    if cs.len() == 0 {
        CollectOut { blocks: Seq::empty(), warns: Seq::empty() }
    } else {
        let head = spec_collect_one(m, cs[0], chain, page);
        let rest = spec_collect_list(m, cs.drop_first(), chain, page);
        CollectOut { blocks: head.blocks + rest.blocks, warns: head.warns + rest.warns }
    }
}

#[via_fn]
proof fn spec_collect_list_decreases(
    m: WorldModel,
    cs: Seq<ContentV>,
    chain: Seq<StyleFrame>,
    page: PageSpec,
) {
    if cs.len() > 0 {
        lemma_contents_size_drop(cs);
    }
}

/// What splitting a run of blocks into pages yields.
#[verifier::ext_equal]
pub ghost struct SplitOut {
    /// The page groups, in order.
    pub groups: Seq<Seq<BlockV>>,
    /// The overflow warnings recorded, in order.
    pub warns: Seq<Warning>,
}

/// Greedy pagination: blocks are appended to the current page while their
/// summed height stays within `avail`, the inner page height.  A block
/// that does not fit closes the page and is retried on a fresh one; if it
/// does not fit even a whole empty page it is placed there anyway,
/// overflowing, with a warning.  `cur` is the page under construction and
/// `used` the height consumed on it.  Because heights are integers the
/// fit test is exact and cannot oscillate.
pub open spec fn spec_split(
    blocks: Seq<BlockV>,
    avail: u64,
    cur: Seq<BlockV>,
    used: u64,
) -> SplitOut
    decreases blocks.len(), cur.len(),
{
    if blocks.len() == 0 {
        if cur.len() == 0 {
            SplitOut { groups: Seq::empty(), warns: Seq::empty() }
        } else {
            SplitOut { groups: seq![cur], warns: Seq::empty() }
        }
    } else {
        let b = blocks[0];
        let grown = spec_sat_add(used, b.height);
        if grown <= avail {
            spec_split(blocks.drop_first(), avail, cur.push(b), grown)
        } else if cur.len() == 0 {
            let rest = spec_split(blocks.drop_first(), avail, Seq::empty(), 0);
            SplitOut {
                groups: seq![seq![b]] + rest.groups,
                warns: seq![Warning { span: b.span, kind: WarnKind::Overflow }] + rest.warns,
            }
        } else {
            let rest = spec_split(blocks, avail, Seq::empty(), 0);
            SplitOut { groups: seq![cur] + rest.groups, warns: rest.warns }
        }
    }
}

/// The items of one frame: the blocks of its group, in order, each at the
/// margin plus its indent, stacked downward from `y`.
pub open spec fn spec_frame_items(group: Seq<BlockV>, margin: u64, y: u64) -> Seq<FrameItemV>
    decreases group.len(),
{
    if group.len() == 0 {
        Seq::empty()
    } else {
        seq![
            FrameItemV { x: spec_sat_add(margin, group[0].indent), y, block: group[0] },
        ] + spec_frame_items(group.drop_first(), margin, spec_sat_add(y, group[0].height))
    }
}

/// The frame one page group builds: a canvas of the page size holding the
/// group's blocks stacked from the top margin.
pub open spec fn spec_frame(group: Seq<BlockV>, page: PageSpec) -> FrameV {
    FrameV {
        width: page.width,
        height: page.height,
        items: spec_frame_items(group, page.margin, page.margin),
    }
}

/// The frame of a page with nothing on it.
pub open spec fn spec_empty_frame(page: PageSpec) -> FrameV {
    FrameV { width: page.width, height: page.height, items: Seq::empty() }
}

/// What typesetting yields: the document and the warnings layout
/// recorded.
#[verifier::ext_equal]
pub ghost struct TypesetOut {
    /// The finished document.
    pub doc: DocumentV,
    /// The warnings recorded, in order: collection warnings first, then
    /// pagination warnings.
    pub warns: Seq<Warning>,
}

/// The typesetting engine as a pure function of the world model: collect
/// the content into blocks under the empty style chain, split the blocks
/// into page groups by the inner height, and build one frame per group.
/// A document with no content still has one empty page.
pub open spec fn spec_typeset(m: WorldModel, cs: Seq<ContentV>, page: PageSpec) -> TypesetOut {
    let col = spec_collect_list(m, cs, Seq::empty(), page);
    let sp = spec_split(col.blocks, page.spec_inner_height(), Seq::empty(), 0);
    let pages = if sp.groups.len() == 0 {
        seq![spec_empty_frame(page)]
    } else {
        sp.groups.map_values(|g: Seq<BlockV>| spec_frame(g, page))
    };
    TypesetOut { doc: DocumentV { pages }, warns: col.warns + sp.warns }
}


/// The mathematical value of the words of a list from position `i` on.
pub open spec fn wtail(words: Seq<Vec<u8>>, i: int) -> Seq<Seq<u8>> {
    words_view(words.subrange(i, words.len() as int))
}

/// The mathematical value of the nodes of a list from position `i` on.
pub open spec fn ctail(cs: Seq<Content>, i: int) -> Seq<ContentV> {
    contents_view(cs.subrange(i, cs.len() as int))
}

/// The mathematical value of the blocks of a run from position `i` on.
pub open spec fn btail(bs: Seq<Block>, i: int) -> Seq<BlockV> {
    blocks_view(bs.subrange(i, bs.len() as int))
}

/// Copy one block.
pub fn clone_block(b: &Block) -> (r: Block)
    ensures
        r@ == b@,
{
    let body = match &b.body {
        BlockBody::Line { text, size } => BlockBody::Line { text: clone_bytes(text), size: *size },
        BlockBody::ImageRef { id, width } => BlockBody::ImageRef { id: *id, width: *width },
        BlockBody::Holder { width } => BlockBody::Holder { width: *width },
        BlockBody::DateLine { date, size } => BlockBody::DateLine { date: *date, size: *size },
    };
    Block { height: b.height, indent: b.indent, span: b.span, body }
}

/// Break the words of a list from position `i` on into lines, continuing
/// the line `cur` of width `curw`.
pub fn fill(words: &Vec<Vec<u8>>, i: usize, cap: u64, size: u64, cur: Vec<u8>, curw: u64) -> (r:
    Vec<Vec<u8>>)
    requires
        i <= words.len(),
    ensures
        words_view(r@) == spec_fill(wtail(words@, i as int), cap, size, cur@, curw),
    decreases words.len() - i,
{
    let ghost tail = wtail(words@, i as int);
    if i == words.len() {
        proof {
            assert(words@.subrange(i as int, words@.len() as int) =~= Seq::<Vec<u8>>::empty());
            assert(tail =~= Seq::<Seq<u8>>::empty());
        }
        if cur.len() == 0 {
            let r: Vec<Vec<u8>> = Vec::new();
            proof {
                assert(words_view(r@) =~= Seq::<Seq<u8>>::empty());
            }
            r
        } else {
            let mut r: Vec<Vec<u8>> = Vec::new();
            r.push(cur);
            proof {
                assert(words_view(r@) =~= seq![cur@]);
            }
            r
        }
    } else {
        let ghost sub_i = words@.subrange(i as int, words@.len() as int);
        proof {
            assert(sub_i[0] == words@[i as int]);
            assert(sub_i.drop_first() =~= words@.subrange(i as int + 1, words@.len() as int));
            assert(tail[0] == words@[i as int]@);
            assert(tail.drop_first() =~= wtail(words@, i as int + 1));
        }
        let w = &words[i];
        let ww = sat_mul(w.len(), size / 2);
        if cur.len() == 0 {
            let wc = clone_bytes(w);
            fill(words, i + 1, cap, size, wc, ww)
        } else {
            let neww = sat_add(curw, sat_add(size / 2, ww));
            if neww <= cap {
                let mut cur2 = cur;
                cur2.push(32u8);
                let mut wc = clone_bytes(w);
                cur2.append(&mut wc);
                proof {
                    assert(cur2@ =~= cur@ + seq![32u8] + w@);
                }
                fill(words, i + 1, cap, size, cur2, neww)
            } else {
                let mut out: Vec<Vec<u8>> = Vec::new();
                out.push(cur);
                let wc = clone_bytes(w);
                let mut rest = fill(words, i + 1, cap, size, wc, ww);
                let ghost restv = rest@;
                out.append(&mut rest);
                proof {
                    assert(words_view(out@) =~= seq![cur@] + words_view(restv));
                }
                out
            }
        }
    }
}

/// Collect one content node into blocks, resolving styles through the
/// chain, recording a warning for a missing image.
pub fn collect_one<W: World>(world: &W, c: &Content, chain: &StyleChain, page: &PageSpec, diags: &mut Diagnostics) -> (r: Vec<Block>)
    ensures
        blocks_view(r@) == spec_collect_one(world.model(), c@, chain@, *page).blocks,
        final(diags)@ == old(diags)@ + spec_collect_one(world.model(), c@, chain@, *page).warns,
    decreases content_size(c@), 0nat,
{
    let ghost m = world.model();
    match c {
        Content::Par { words, span } => {
            let size = chain.resolve(Prop::TextSize);
            let leading = chain.resolve(Prop::Leading);
            let indent = chain.resolve(Prop::Indent);
            let cap = sat_sub(page.inner_width(), indent);
            let lines = fill(words, 0, cap, size, Vec::new(), 0);
            proof {
                assert(words@.subrange(0, words@.len() as int) =~= words@);
                assert(wtail(words@, 0) == words_view(words@));
                assert(old(diags)@ + Seq::<Warning>::empty() =~= old(diags)@);
            }
            let ghost linesv = words_view(lines@);
            let mut out: Vec<Block> = Vec::new();
            let mut j: usize = 0;
            while j < lines.len()
                invariant
                    j <= lines.len(),
                    linesv == words_view(lines@),
                    linesv.len() == lines@.len(),
                    out@.len() == j,
                    forall|k: int|
                        0 <= k < j ==> out@[k]@ == (BlockV {
                            height: leading,
                            indent,
                            span: *span,
                            body: BlockBodyV::Line { text: linesv[k], size },
                        }),
                decreases lines.len() - j,
            {
                let text = clone_bytes(&lines[j]);
                out.push(Block {
                    height: leading,
                    indent,
                    span: *span,
                    body: BlockBody::Line { text, size },
                });
                j = j + 1;
            }
            proof {
                assert(blocks_view(out@) =~= spec_par_blocks(words_view(words@), chain@, *page, *span));
            }
            out
        },
        Content::Image { id, width, height, span } => {
            let indent = chain.resolve(Prop::Indent);
            let mut out: Vec<Block> = Vec::new();
            match world.file(*id) {
                Result::Ok(_) => {
                    out.push(Block {
                        height: *height,
                        indent,
                        span: *span,
                        body: BlockBody::ImageRef { id: *id, width: *width },
                    });
                    proof {
                        assert(old(diags)@ + Seq::<Warning>::empty() =~= old(diags)@);
                        assert(blocks_view(out@) =~= spec_collect_one(m, c@, chain@, *page).blocks);
                    }
                },
                Result::Err(_) => {
                    out.push(Block {
                        height: *height,
                        indent,
                        span: *span,
                        body: BlockBody::Holder { width: *width },
                    });
                    let w = Warning { span: *span, kind: WarnKind::MissingImage };
                    diags.warn(w);
                    proof {
                        assert(old(diags)@.push(w) =~= old(diags)@ + seq![w]);
                        assert(blocks_view(out@) =~= spec_collect_one(m, c@, chain@, *page).blocks);
                    }
                },
            }
            out
        },
        Content::Date { date, span } => {
            let size = chain.resolve(Prop::TextSize);
            let leading = chain.resolve(Prop::Leading);
            let indent = chain.resolve(Prop::Indent);
            let mut out: Vec<Block> = Vec::new();
            out.push(Block {
                height: leading,
                indent,
                span: *span,
                body: BlockBody::DateLine { date: *date, size },
            });
            proof {
                assert(old(diags)@ + Seq::<Warning>::empty() =~= old(diags)@);
                assert(blocks_view(out@) =~= spec_collect_one(m, c@, chain@, *page).blocks);
            }
            out
        },
        Content::Styled { prop, value, body, span } => {
            let chain2 = chain.pushed(StyleFrame { prop: *prop, value: *value });
            proof {
                assert(body@.subrange(0, body@.len() as int) =~= body@);
                assert(ctail(body@, 0) == contents_view(body@));
                assert(content_size(c@) == 1 + contents_size(contents_view(body@)));
            }
            collect_list(world, body, 0, &chain2, page, diags)
        },
    }
}

/// Collect the nodes of a list from position `i` on, in document order.
pub fn collect_list<W: World>(world: &W, cs: &Vec<Content>, i: usize, chain: &StyleChain, page: &PageSpec, diags: &mut Diagnostics) -> (r: Vec<Block>)
    requires
        i <= cs.len(),
    ensures
        blocks_view(r@) == spec_collect_list(world.model(), ctail(cs@, i as int), chain@, *page).blocks,
        final(diags)@ == old(diags)@ + spec_collect_list(world.model(), ctail(cs@, i as int), chain@, *page).warns,
    decreases contents_size(ctail(cs@, i as int)), 1nat,
{
    let ghost m = world.model();
    let ghost tail = ctail(cs@, i as int);
    if i == cs.len() {
        proof {
            assert(cs@.subrange(i as int, cs@.len() as int) =~= Seq::<Content>::empty());
            assert(tail =~= Seq::<ContentV>::empty());
            assert(old(diags)@ + Seq::<Warning>::empty() =~= old(diags)@);
        }
        let r: Vec<Block> = Vec::new();
        proof {
            assert(blocks_view(r@) =~= Seq::<BlockV>::empty());
        }
        return r;
    }
    let ghost sub_i = cs@.subrange(i as int, cs@.len() as int);
    proof {
        assert(sub_i[0] == cs@[i as int]);
        assert(sub_i.drop_first() =~= cs@.subrange(i as int + 1, cs@.len() as int));
        lemma_contents_view_len(sub_i);
        assert(tail == seq![content_view(sub_i[0])] + contents_view(sub_i.drop_first()));
        assert(tail[0] == content_view(cs@[i as int]));
        assert(tail.drop_first() =~= contents_view(sub_i.drop_first()));
        assert(contents_view(sub_i.drop_first()) == ctail(cs@, i as int + 1));
        lemma_contents_size_drop(tail);
        assert(contents_size(ctail(cs@, i as int + 1)) < contents_size(tail));
    }
    let node = &cs[i];
    proof {
        assert(*node == cs@[i as int]);
    }
    let mut head = collect_one(world, node, chain, page, diags);
    let ghost headv = head@;
    let ghost dmid = diags@;
    let mut rest = collect_list(world, cs, i + 1, chain, page, diags);
    let ghost restv = rest@;
    head.append(&mut rest);
    proof {
        let ho = spec_collect_one(m, content_view(cs@[i as int]), chain@, *page);
        let ro = spec_collect_list(m, ctail(cs@, i as int + 1), chain@, *page);
        assert(blocks_view(headv + restv) =~= blocks_view(headv) + blocks_view(restv));
        assert(dmid + ro.warns =~= old(diags)@ + (ho.warns + ro.warns));
    }
    head
}

/// Split the blocks of a run from position `i` on into page groups,
/// continuing the page `cur` on which `used` height is consumed.
pub fn split_pages(blocks: &Vec<Block>, i: usize, avail: u64, cur: Vec<Block>, used: u64, diags: &mut Diagnostics) -> (r: Vec<Vec<Block>>)
    requires
        i <= blocks.len(),
    ensures
        groups_view(r@) == spec_split(btail(blocks@, i as int), avail, blocks_view(cur@), used).groups,
        final(diags)@ == old(diags)@ + spec_split(btail(blocks@, i as int), avail, blocks_view(cur@), used).warns,
    decreases blocks.len() - i, cur.len(),
{
    let ghost tail = btail(blocks@, i as int);
    if i == blocks.len() {
        proof {
            assert(blocks@.subrange(i as int, blocks@.len() as int) =~= Seq::<Block>::empty());
            assert(tail =~= Seq::<BlockV>::empty());
            assert(old(diags)@ + Seq::<Warning>::empty() =~= old(diags)@);
        }
        if cur.len() == 0 {
            let r: Vec<Vec<Block>> = Vec::new();
            proof {
                assert(groups_view(r@) =~= Seq::<Seq<BlockV>>::empty());
            }
            r
        } else {
            proof {
                assert(blocks_view(cur@).len() == cur@.len());
            }
            let mut r: Vec<Vec<Block>> = Vec::new();
            r.push(cur);
            proof {
                assert(groups_view(r@) =~= seq![blocks_view(r@[0]@)]);
            }
            r
        }
    } else {
        let ghost sub_i = blocks@.subrange(i as int, blocks@.len() as int);
        proof {
            assert(sub_i[0] == blocks@[i as int]);
            assert(sub_i.drop_first() =~= blocks@.subrange(i as int + 1, blocks@.len() as int));
            assert(tail[0] == blocks@[i as int]@);
            assert(tail.drop_first() =~= btail(blocks@, i as int + 1));
            assert(blocks_view(cur@).len() == cur@.len());
        }
        let b = &blocks[i];
        proof {
            assert(*b == blocks@[i as int]);
        }
        let grown = sat_add(used, b.height);
        if grown <= avail {
            let mut cur2 = cur;
            cur2.push(clone_block(b));
            proof {
                assert(blocks_view(cur2@) =~= blocks_view(cur@).push(blocks@[i as int]@));
            }
            split_pages(blocks, i + 1, avail, cur2, grown, diags)
        } else if cur.len() == 0 {
            let w = Warning { span: b.span, kind: WarnKind::Overflow };
            diags.warn(w);
            let mut lone: Vec<Block> = Vec::new();
            lone.push(clone_block(b));
            let ghost lonev = lone@;
            let mut out: Vec<Vec<Block>> = Vec::new();
            out.push(lone);
            let mut rest = split_pages(blocks, i + 1, avail, Vec::new(), 0, diags);
            let ghost restv = rest@;
            out.append(&mut rest);
            proof {
                let ro = spec_split(btail(blocks@, i as int + 1), avail, Seq::empty(), 0);
                assert(blocks_view(Seq::<Block>::empty()) =~= Seq::<BlockV>::empty());
                assert(blocks_view(lonev) =~= seq![blocks@[i as int]@]);
                assert(groups_view(out@) =~= seq![blocks_view(lonev)] + groups_view(restv));
                assert((old(diags)@.push(w)) + ro.warns =~= old(diags)@ + (seq![w] + ro.warns));
            }
            out
        } else {
            let mut out: Vec<Vec<Block>> = Vec::new();
            out.push(cur);
            let mut rest = split_pages(blocks, i, avail, Vec::new(), 0, diags);
            let ghost restv = rest@;
            out.append(&mut rest);
            proof {
                assert(blocks_view(Seq::<Block>::empty()) =~= Seq::<BlockV>::empty());
                assert(groups_view(out@) =~= seq![blocks_view(out@[0]@)] + groups_view(restv));
            }
            out
        }
    }
}

/// Place the blocks of a group from position `i` on, stacking downward
/// from `y`.
pub fn build_items(group: &Vec<Block>, i: usize, margin: u64, y: u64) -> (r: Vec<FrameItem>)
    requires
        i <= group.len(),
    ensures
        r@.map_values(|it: FrameItem| it@) == spec_frame_items(btail(group@, i as int), margin, y),
    decreases group.len() - i,
{
    let ghost tail = btail(group@, i as int);
    if i == group.len() {
        proof {
            assert(group@.subrange(i as int, group@.len() as int) =~= Seq::<Block>::empty());
            assert(tail =~= Seq::<BlockV>::empty());
        }
        let r: Vec<FrameItem> = Vec::new();
        proof {
            assert(r@.map_values(|it: FrameItem| it@) =~= Seq::<FrameItemV>::empty());
        }
        r
    } else {
        let ghost sub_i = group@.subrange(i as int, group@.len() as int);
        proof {
            assert(sub_i[0] == group@[i as int]);
            assert(sub_i.drop_first() =~= group@.subrange(i as int + 1, group@.len() as int));
            assert(tail[0] == group@[i as int]@);
            assert(tail.drop_first() =~= btail(group@, i as int + 1));
        }
        let b = &group[i];
        let x = sat_add(margin, b.indent);
        let item = FrameItem { x, y, block: clone_block(b) };
        let ghost itemv = item@;
        let y2 = sat_add(y, b.height);
        let mut out: Vec<FrameItem> = Vec::new();
        out.push(item);
        let mut rest = build_items(group, i + 1, margin, y2);
        let ghost restv = rest@;
        out.append(&mut rest);
        proof {
            assert(out@.map_values(|it: FrameItem| it@) =~= seq![itemv] + restv.map_values(
                |it: FrameItem| it@,
            ));
        }
        out
    }
}

/// Build the frame of one page group: a canvas of the page size holding
/// the group's blocks stacked from the top margin.
pub fn build_frame(group: &Vec<Block>, page: &PageSpec) -> (r: Frame)
    ensures
        r@ == spec_frame(blocks_view(group@), *page),
{
    let items = build_items(group, 0, page.margin, page.margin);
    proof {
        assert(group@.subrange(0, group@.len() as int) =~= group@);
        assert(btail(group@, 0) == blocks_view(group@));
    }
    Frame { width: page.width, height: page.height, items }
}


/// Typeset content onto pages of the given geometry, using (and
/// maintaining) the layout cache.  The document and the warnings
/// deposited into `diags` are exactly those of `spec_typeset` on the
/// world's model — in particular they do not depend on the state of the
/// cache, nor on whether it is enabled at all.
pub fn typeset<W: World>(world: &W, cs: &Vec<Content>, page: PageSpec, memo: &mut crate::memo::Memo, diags: &mut Diagnostics) -> (r: Document)
    requires
        old(memo).wf(),
    ensures
        final(memo).wf(),
        final(memo).enabled == old(memo).enabled,
        r@ == spec_typeset(world.model(), contents_view(cs@), page).doc,
        final(diags)@ == old(diags)@ + spec_typeset(world.model(), contents_view(cs@), page).warns,
{
    let ghost m = world.model();
    let ghost col = spec_collect_list(m, contents_view(cs@), Seq::<StyleFrame>::empty(), page);
    let ghost sp = spec_split(col.blocks, page.spec_inner_height(), Seq::<BlockV>::empty(), 0);
    let chain = StyleChain::new();
    proof {
        assert(cs@.subrange(0, cs@.len() as int) =~= cs@);
        assert(ctail(cs@, 0) == contents_view(cs@));
    }
    let blocks = collect_list(world, cs, 0, &chain, &page, diags);
    let ghost dmid = diags@;
    let avail = page.inner_height();
    proof {
        assert(blocks@.subrange(0, blocks@.len() as int) =~= blocks@);
        assert(btail(blocks@, 0) == blocks_view(blocks@));
        assert(blocks_view(Seq::<Block>::empty()) =~= Seq::<BlockV>::empty());
    }
    let groups = split_pages(&blocks, 0, avail, Vec::new(), 0, diags);
    proof {
        assert(dmid + sp.warns =~= old(diags)@ + (col.warns + sp.warns));
        assert(groups_view(groups@).len() == groups@.len());
    }
    let mut pages: Vec<Frame> = Vec::new();
    let mut j: usize = 0;
    while j < groups.len()
        invariant
            j <= groups.len(),
            memo.wf(),
            memo.enabled == old(memo).enabled,
            groups_view(groups@) == sp.groups,
            pages@.len() == j,
            forall|k: int|
                0 <= k < j ==> pages@[k]@ == spec_frame(groups_view(groups@)[k], page),
        decreases groups.len() - j,
    {
        proof {
            assert(groups_view(groups@)[j as int] == blocks_view(groups@[j as int]@));
        }
        let f = memo.frame_for(&groups[j], &page);
        pages.push(f);
        j = j + 1;
    }
    if pages.len() == 0 {
        pages.push(Frame { width: page.width, height: page.height, items: Vec::new() });
        proof {
            assert(sp.groups.len() == 0);
            assert(pages@[0]@ =~= spec_empty_frame(page));
            assert(pages@.map_values(|f: Frame| f@) =~= seq![spec_empty_frame(page)]);
        }
    } else {
        proof {
            assert(sp.groups.len() > 0);
            assert(pages@.map_values(|f: Frame| f@) =~= sp.groups.map_values(
                |g: Seq<BlockV>| spec_frame(g, page),
            ));
        }
    }
    Document { pages }
}

/// The blocks a run of page groups holds, concatenated in order.
pub open spec fn concat_groups(groups: Seq<Seq<BlockV>>) -> Seq<BlockV>
    decreases groups.len(),
{
    if groups.len() == 0 {
        Seq::empty()
    } else {
        groups[0] + concat_groups(groups.drop_first())
    }
}

/// The blocks one frame places, in order.
pub open spec fn frame_blocks(f: FrameV) -> Seq<BlockV> {
    f.items.map_values(|it: FrameItemV| it.block)
}

/// The blocks a run of pages places, concatenated in page order.
pub open spec fn pages_blocks(pages: Seq<FrameV>) -> Seq<BlockV>
    decreases pages.len(),
{
    if pages.len() == 0 {
        Seq::empty()
    } else {
        frame_blocks(pages[0]) + pages_blocks(pages.drop_first())
    }
}

/// Fragmentation loses nothing and invents nothing: the page groups that
/// greedy pagination cuts a run of blocks into concatenate back to
/// exactly the run appended to the page under construction — every block
/// appears exactly once, in its original order, whatever the available
/// height.
pub proof fn lemma_split_covers(blocks: Seq<BlockV>, avail: u64, cur: Seq<BlockV>, used: u64)
    ensures
        concat_groups(spec_split(blocks, avail, cur, used).groups) == cur + blocks,
    decreases blocks.len(), cur.len(),
{
    let out = spec_split(blocks, avail, cur, used);
    if blocks.len() == 0 {
        if cur.len() == 0 {
            assert(concat_groups(out.groups) =~= cur + blocks);
        } else {
            assert(out.groups == seq![cur]);
            assert(out.groups.drop_first() =~= Seq::<Seq<BlockV>>::empty());
            assert(concat_groups(Seq::<Seq<BlockV>>::empty()) == Seq::<BlockV>::empty());
            assert(concat_groups(out.groups) == cur + concat_groups(out.groups.drop_first()));
            assert(concat_groups(out.groups) =~= cur + blocks);
        }
    } else {
        let b = blocks[0];
        let grown = spec_sat_add(used, b.height);
        if grown <= avail {
            lemma_split_covers(blocks.drop_first(), avail, cur.push(b), grown);
            assert(cur.push(b) + blocks.drop_first() =~= cur + blocks);
        } else if cur.len() == 0 {
            lemma_split_covers(blocks.drop_first(), avail, Seq::empty(), 0);
            let rest = spec_split(blocks.drop_first(), avail, Seq::empty(), 0);
            assert(out.groups == seq![seq![b]] + rest.groups);
            assert(out.groups[0] == seq![b]);
            assert(out.groups.drop_first() =~= rest.groups);
            assert(Seq::<BlockV>::empty() + blocks.drop_first() =~= blocks.drop_first());
            assert(concat_groups(out.groups) == seq![b] + blocks.drop_first());
            assert(seq![b] + blocks.drop_first() =~= cur + blocks);
        } else {
            lemma_split_covers(blocks, avail, Seq::empty(), 0);
            let rest = spec_split(blocks, avail, Seq::empty(), 0);
            assert(out.groups == seq![cur] + rest.groups);
            assert(out.groups[0] == cur);
            assert(out.groups.drop_first() =~= rest.groups);
            assert(Seq::<BlockV>::empty() + blocks =~= blocks);
            assert(concat_groups(out.groups) == cur + blocks);
        }
    }
}

/// A frame places exactly the blocks of its group, in order: building a
/// frame reorders, drops and duplicates nothing.
pub proof fn lemma_frame_places_group(group: Seq<BlockV>, margin: u64, y: u64)
    ensures
        spec_frame_items(group, margin, y).map_values(|it: FrameItemV| it.block) == group,
    decreases group.len(),
{
    let items = spec_frame_items(group, margin, y);
    if group.len() == 0 {
        assert(items.map_values(|it: FrameItemV| it.block) =~= group);
    } else {
        let y2 = spec_sat_add(y, group[0].height);
        lemma_frame_places_group(group.drop_first(), margin, y2);
        let rest = spec_frame_items(group.drop_first(), margin, y2);
        let head = FrameItemV { x: spec_sat_add(margin, group[0].indent), y, block: group[0] };
        assert(items == seq![head] + rest);
        assert forall|k: int| 0 <= k < items.len() implies items.map_values(
            |it: FrameItemV| it.block,
        )[k] == group[k] by {
            if k == 0 {
                assert(items[0] == head);
            } else {
                assert(items[k] == rest[k - 1]);
                assert(rest.map_values(|it: FrameItemV| it.block)[k - 1] == rest[k - 1].block);
                assert(rest[k - 1].block == group.drop_first()[k - 1]);
            }
        }
        assert(items.map_values(|it: FrameItemV| it.block) =~= group);
    }
}

/// The pages built from a run of groups place the groups' blocks,
/// concatenated in order.
pub proof fn lemma_pages_place_groups(groups: Seq<Seq<BlockV>>, page: PageSpec)
    ensures
        pages_blocks(groups.map_values(|g: Seq<BlockV>| spec_frame(g, page))) == concat_groups(
            groups,
        ),
    decreases groups.len(),
{
    let pages = groups.map_values(|g: Seq<BlockV>| spec_frame(g, page));
    if groups.len() == 0 {
        assert(pages_blocks(pages) =~= concat_groups(groups));
    } else {
        lemma_pages_place_groups(groups.drop_first(), page);
        assert(pages.drop_first() =~= groups.drop_first().map_values(
            |g: Seq<BlockV>| spec_frame(g, page),
        ));
        assert(pages[0] == spec_frame(groups[0], page));
        lemma_frame_places_group(groups[0], page.margin, page.margin);
        assert(frame_blocks(pages[0]) == groups[0]);
        assert(pages_blocks(pages) == groups[0] + concat_groups(groups.drop_first()));
    }
}

/// Order preservation and fragmentation correctness, end to end: for any
/// content, the blocks the document's pages place — read page by page,
/// item by item — are exactly the blocks the content collects to, in the
/// same order, with nothing duplicated and nothing dropped, however they
/// were fragmented across pages.
pub proof fn lemma_document_covers_content(m: WorldModel, cs: Seq<ContentV>, page: PageSpec)
    ensures
        pages_blocks(spec_typeset(m, cs, page).doc.pages) == spec_collect_list(
            m,
            cs,
            Seq::<StyleFrame>::empty(),
            page,
        ).blocks,
{
    let col = spec_collect_list(m, cs, Seq::<StyleFrame>::empty(), page);
    let sp = spec_split(col.blocks, page.spec_inner_height(), Seq::<BlockV>::empty(), 0);
    lemma_split_covers(col.blocks, page.spec_inner_height(), Seq::empty(), 0);
    assert(Seq::<BlockV>::empty() + col.blocks =~= col.blocks);
    if sp.groups.len() == 0 {
        assert(concat_groups(sp.groups) == Seq::<BlockV>::empty());
        let pages = seq![spec_empty_frame(page)];
        assert(frame_blocks(spec_empty_frame(page)) =~= Seq::<BlockV>::empty());
        assert(pages.drop_first() =~= Seq::<FrameV>::empty());
        assert(pages_blocks(Seq::<FrameV>::empty()) == Seq::<BlockV>::empty());
        assert(pages_blocks(pages) == frame_blocks(pages[0]) + pages_blocks(pages.drop_first()));
        assert(pages_blocks(pages) =~= Seq::<BlockV>::empty());
    } else {
        lemma_pages_place_groups(sp.groups, page);
    }
}


/// The bytes of a run of words, joined by single spaces.
pub open spec fn joined(words: Seq<Seq<u8>>) -> Seq<u8>
    decreases words.len(),
{
    if words.len() == 0 {
        Seq::empty()
    } else if words.len() == 1 {
        words[0]
    } else {
        words[0] + seq![32u8] + joined(words.drop_first())
    }
}

/// Joining distributes over putting one run in front.
proof fn lemma_joined_cons(head: Seq<u8>, rest: Seq<Seq<u8>>)
    ensures
        rest.len() == 0 ==> joined(seq![head] + rest) == head,
        rest.len() > 0 ==> joined(seq![head] + rest) == head + seq![32u8] + joined(rest),
{
    let whole = seq![head] + rest;
    assert(whole[0] == head);
    assert(whole.drop_first() =~= rest);
    if rest.len() == 0 {
        assert(whole.len() == 1);
    }
}

/// The generalized text-preservation induction: continuing a non-empty
/// line, the lines that come out read — with every line break taken as a
/// space — as that line followed by the remaining words.  At least one
/// line comes out.
proof fn lemma_fill_text_from(words: Seq<Seq<u8>>, cap: u64, size: u64, cur: Seq<u8>, curw: u64)
    requires
        cur.len() > 0,
        forall|i: int| 0 <= i < words.len() ==> words[i].len() > 0,
    ensures
        spec_fill(words, cap, size, cur, curw).len() > 0,
        joined(spec_fill(words, cap, size, cur, curw)) == joined(seq![cur] + words),
    decreases words.len(),
{
    let out = spec_fill(words, cap, size, cur, curw);
    if words.len() == 0 {
        assert(out == seq![cur]);
        lemma_joined_cons(cur, words);
        assert(seq![cur] + words =~= seq![cur]);
        assert(joined(out) == cur);
    } else {
        let w = words[0];
        let rest = words.drop_first();
        let ww = spec_word_width(w, size);
        let neww = spec_sat_add(curw, spec_sat_add(size / 2, ww));
        lemma_joined_cons(cur, words);
        lemma_joined_cons(w, rest);
        assert(forall|i: int| 0 <= i < rest.len() ==> rest[i].len() > 0);
        if neww <= cap {
            let cur2 = cur + seq![32u8] + w;
            lemma_fill_text_from(rest, cap, size, cur2, neww);
            lemma_joined_cons(cur2, rest);
            if rest.len() == 0 {
                assert(joined(out) == cur2);
                assert(joined(seq![cur] + words) == cur + seq![32u8] + joined(words));
                assert(words.len() == 1);
                assert(joined(words) == w);
                assert(cur2 =~= cur + seq![32u8] + w);
            } else {
                assert(joined(out) == cur2 + seq![32u8] + joined(rest));
                assert(joined(seq![cur] + words) == cur + seq![32u8] + joined(words));
                assert(joined(words) == joined(seq![w] + rest));
                assert(joined(seq![w] + rest) == w + seq![32u8] + joined(rest));
                assert(cur2 + seq![32u8] + joined(rest) =~= cur + seq![32u8] + (w + seq![32u8]
                    + joined(rest)));
            }
        } else {
            lemma_fill_text_from(rest, cap, size, w, ww);
            let tail_lines = spec_fill(rest, cap, size, w, ww);
            assert(out == seq![cur] + tail_lines);
            lemma_joined_cons(cur, tail_lines);
            assert(joined(out) == cur + seq![32u8] + joined(tail_lines));
            assert(joined(tail_lines) == joined(seq![w] + rest));
            assert(joined(seq![cur] + words) == cur + seq![32u8] + joined(words));
            assert(joined(words) == joined(seq![w] + rest)) by {
                assert(seq![w] + rest =~= words);
            }
        }
    }
}

/// Greedy line breaking loses and invents no text: reading every line
/// break back as the space it replaced, the broken lines of a paragraph
/// of non-empty words hold exactly the paragraph's words, in order —
/// whatever the line width and text size.
pub proof fn lemma_fill_preserves_text(words: Seq<Seq<u8>>, cap: u64, size: u64)
    requires
        forall|i: int| 0 <= i < words.len() ==> words[i].len() > 0,
    ensures
        joined(spec_fill(words, cap, size, Seq::empty(), 0)) == joined(words),
{
    if words.len() == 0 {
    } else {
        let w = words[0];
        let rest = words.drop_first();
        let ww = spec_word_width(w, size);
        assert(forall|i: int| 0 <= i < rest.len() ==> rest[i].len() > 0);
        lemma_fill_text_from(rest, cap, size, w, ww);
        assert(spec_fill(words, cap, size, Seq::empty(), 0) == spec_fill(rest, cap, size, w, ww));
        assert(joined(seq![w] + rest) == joined(words)) by {
            assert(seq![w] + rest =~= words);
        }
    }
}

} // verus!
