//! The content model: the hierarchical, styled representation a source
//! file evaluates to.
//!
//! Content is immutable once constructed and preserves exactly the order
//! it was built in.  Style overrides are not baked into the leaves;
//! instead a [`Content::Styled`] node wraps the subtree the override
//! scopes over, and typesetting resolves effective values by extending
//! its style chain while descending.

use vstd::prelude::*;

use crate::diag::Span;
use crate::markup::{scope_view, words_view, Binding, BindingV};
use crate::style::Prop;

verus! {

/// A calendar date, as the world reports it.
#[derive(Clone, Copy, PartialEq, Eq, Structural, Debug)]
pub struct Datetime {
    /// The year.
    pub year: i64,
    /// The month, counted from one.
    pub month: u64,
    /// The day of the month, counted from one.
    pub day: u64,
}

/// A loadable font, as handed out by the world for an index of its font
/// book.  The pipeline only establishes that a font is present; shaping
/// with it happens outside this crate.
#[derive(Debug, PartialEq, Eq)]
pub struct Font {
    /// The index this font has in the world's font book.
    pub index: usize,
    /// The raw font data.
    pub data: Vec<u8>,
}

/// Metadata about all fonts a world knows: one family name per index.
#[derive(Debug, PartialEq, Eq)]
pub struct FontBook {
    /// The family name of each known font, by index.
    pub families: Vec<Vec<u8>>,
}

impl View for FontBook {
    type V = Seq<Seq<u8>>;

    open spec fn view(&self) -> Seq<Seq<u8>> {
        words_view(self.families@)
    }
}

/// One node of the content tree.
#[derive(Debug, PartialEq, Eq)]
pub enum Content {
    /// A paragraph of flow text, as a sequence of words.
    Par { words: Vec<Vec<u8>>, span: Span },
    /// A reference to an image file, with its requested size.
    Image { id: u64, width: u64, height: u64, span: Span },
    /// A date resolved during evaluation.
    Date { date: Datetime, span: Span },
    /// A style override scoped over a group of children.
    Styled { prop: Prop, value: u64, body: Vec<Content>, span: Span },
}

/// The mathematical value of a [`Content`] node.
pub ghost enum ContentV {
    /// A paragraph of words.
    Par { words: Seq<Seq<u8>>, span: Span },
    /// An image reference with its requested size.
    Image { id: u64, width: u64, height: u64, span: Span },
    /// A date resolved during evaluation.
    Date { date: Datetime, span: Span },
    /// A style override scoped over a group of children.
    Styled { prop: Prop, value: u64, body: Seq<ContentV>, span: Span },
}

/// The mathematical value of one content node.
pub open spec fn content_view(c: Content) -> ContentV
    decreases c,
{
    match c {
        Content::Par { words, span } => ContentV::Par { words: words_view(words@), span },
        Content::Image { id, width, height, span } => ContentV::Image { id, width, height, span },
        Content::Date { date, span } => ContentV::Date { date, span },
        Content::Styled { prop, value, body, span } => ContentV::Styled {
            prop,
            value,
            body: contents_view(body@),
            span,
        },
    }
}

/// The mathematical value of a sequence of content nodes.
pub open spec fn contents_view(cs: Seq<Content>) -> Seq<ContentV>
    decreases cs,
{
    if cs.len() == 0 {
        Seq::empty()
    } else {
        seq![content_view(cs[0])] + contents_view(cs.drop_first())
    }
}

impl View for Content {
    type V = ContentV;

    open spec fn view(&self) -> ContentV {
        content_view(*self)
    }
}

/// A view of a content sequence has one element per node.
pub proof fn lemma_contents_view_len(cs: Seq<Content>)
    ensures
        contents_view(cs).len() == cs.len(),
    decreases cs.len(),
{
    if cs.len() > 0 {
        lemma_contents_view_len(cs.drop_first());
    }
}

/// Content views distribute over concatenation.
pub proof fn lemma_contents_view_concat(a: Seq<Content>, b: Seq<Content>)
    ensures
        contents_view(a + b) =~= contents_view(a) + contents_view(b),
    decreases a.len(),
{
    if a.len() == 0 {
        assert(a + b =~= b);
    } else {
        assert((a + b).drop_first() =~= a.drop_first() + b);
        lemma_contents_view_concat(a.drop_first(), b);
    }
}

/// The result of evaluating one source file: the scope of values it
/// exports and the content its top-level markup produced.
#[derive(Debug, PartialEq, Eq)]
pub struct Module {
    /// The exported bindings, oldest first.
    pub scope: Vec<Binding>,
    /// The content of the file's top-level markup, in source order.
    pub content: Vec<Content>,
}

/// The mathematical value of a [`Module`].
pub ghost struct ModuleV {
    /// The exported bindings, oldest first.
    pub scope: Seq<BindingV>,
    /// The content of the file's top-level markup, in source order.
    pub content: Seq<ContentV>,
}

impl View for Module {
    type V = ModuleV;

    open spec fn view(&self) -> ModuleV {
        ModuleV { scope: scope_view(self.scope@), content: contents_view(self.content@) }
    }
}

/// A structural size of one content node, used as a termination measure
/// by the mutually recursive walks of the typesetting engine.
pub open spec fn content_size(c: ContentV) -> nat
    decreases c,
{
    match c {
        ContentV::Styled { body, .. } => 1 + contents_size(body),
        _ => 1,
    }
}

/// The summed structural size of a sequence of content nodes.
pub open spec fn contents_size(cs: Seq<ContentV>) -> nat
    decreases cs,
{
    if cs.len() == 0 {
        0
    } else {
        content_size(cs[0]) + contents_size(cs.drop_first())
    }
}

/// The size of a sequence of nodes dominates the size of any tail.
pub proof fn lemma_contents_size_drop(cs: Seq<ContentV>)
    requires
        cs.len() > 0,
    ensures
        contents_size(cs) == content_size(cs[0]) + contents_size(cs.drop_first()),
        contents_size(cs.drop_first()) < contents_size(cs),
        content_size(cs[0]) <= contents_size(cs),
{
    assert(content_size(cs[0]) >= 1) by {
        if cs[0] is Styled {
        }
    }
}

} // verus!
