//! The parsed form of a source file.
//!
//! Parsing itself is an external concern: a [`crate::world::World`] hands
//! the pipeline source files that are already parsed into the markup
//! items below.  Text is carried as raw bytes; shaping it into glyphs is
//! likewise outside this crate.

use vstd::prelude::*;

use crate::diag::Span;
use crate::style::Prop;

verus! {

/// A scripting expression, as it may appear on the right-hand side of a
/// binding or as a style value.
#[derive(Debug, PartialEq, Eq)]
pub enum Expr {
    /// A literal number.
    Lit { value: u64 },
    /// A reference to a bound name.
    Ref { name: Vec<u8>, span: Span },
}

/// The mathematical value of an [`Expr`].
pub ghost enum ExprV {
    /// A literal number.
    Lit { value: u64 },
    /// A reference to a bound name.
    Ref { name: Seq<u8>, span: Span },
}

impl View for Expr {
    type V = ExprV;

    open spec fn view(&self) -> ExprV {
        match self {
            Expr::Lit { value } => ExprV::Lit { value: *value },
            Expr::Ref { name, span } => ExprV::Ref { name: name@, span: *span },
        }
    }
}

/// One top-level or nested markup construct of a source file.
#[derive(Debug, PartialEq, Eq)]
pub enum MarkupItem {
    /// A paragraph: a sequence of words of flow text.
    Par { words: Vec<Vec<u8>>, span: Span },
    /// A reference to an image file, with its requested size in layout
    /// units.
    Image { id: u64, width: u64, height: u64, span: Span },
    /// The current date, as supplied by the world.
    Today { span: Span },
    /// Import of another source file: its exported bindings join the
    /// current scope and its content is spliced in at this position.
    Import { id: u64, span: Span },
    /// An exported binding of a name to the value of an expression.
    Bind { name: Vec<u8>, init: Expr, span: Span },
    /// A scope that sets one style property for the items nested in it.
    Scoped { prop: Prop, value: Expr, body: Vec<MarkupItem>, span: Span },
}

/// The mathematical value of a [`MarkupItem`].
pub ghost enum ItemV {
    /// A paragraph of words.
    Par { words: Seq<Seq<u8>>, span: Span },
    /// An image reference with its requested size.
    Image { id: u64, width: u64, height: u64, span: Span },
    /// The current date.
    Today { span: Span },
    /// An import of another source file.
    Import { id: u64, span: Span },
    /// An exported binding.
    Bind { name: Seq<u8>, init: ExprV, span: Span },
    /// A scoped style override.
    Scoped { prop: Prop, value: ExprV, body: Seq<ItemV>, span: Span },
}

/// The mathematical value of a word list.
pub open spec fn words_view(words: Seq<Vec<u8>>) -> Seq<Seq<u8>> {
    words.map_values(|w: Vec<u8>| w@)
}

/// The mathematical value of one markup item.
pub open spec fn item_view(item: MarkupItem) -> ItemV
    decreases item,
{
    match item {
        MarkupItem::Par { words, span } => ItemV::Par { words: words_view(words@), span },
        MarkupItem::Image { id, width, height, span } => ItemV::Image { id, width, height, span },
        MarkupItem::Today { span } => ItemV::Today { span },
        MarkupItem::Import { id, span } => ItemV::Import { id, span },
        MarkupItem::Bind { name, init, span } => ItemV::Bind { name: name@, init: init@, span },
        MarkupItem::Scoped { prop, value, body, span } => ItemV::Scoped {
            prop,
            value: value@,
            body: items_view(body@),
            span,
        },
    }
}

/// The mathematical value of a sequence of markup items.
pub open spec fn items_view(items: Seq<MarkupItem>) -> Seq<ItemV>
    decreases items,
{
    if items.len() == 0 {
        Seq::empty()
    } else {
        seq![item_view(items[0])] + items_view(items.drop_first())
    }
}

impl View for MarkupItem {
    type V = ItemV;

    open spec fn view(&self) -> ItemV {
        item_view(*self)
    }
}

/// A structural size of one item, used as a termination measure by the
/// mutually recursive walks of the evaluator.
pub open spec fn item_size(item: ItemV) -> nat
    decreases item,
{
    match item {
        ItemV::Scoped { body, .. } => 1 + items_size(body),
        _ => 1,
    }
}

/// The summed structural size of a sequence of items.
pub open spec fn items_size(items: Seq<ItemV>) -> nat
    decreases items,
{
    if items.len() == 0 {
        0
    } else {
        item_size(items[0]) + items_size(items.drop_first())
    }
}

/// A view of an item sequence has one element per item.
pub proof fn lemma_items_view_len(items: Seq<MarkupItem>)
    ensures
        items_view(items).len() == items.len(),
    decreases items.len(),
{
    if items.len() > 0 {
        lemma_items_view_len(items.drop_first());
    }
}

/// The size of a sequence of items dominates the size of any tail.
pub proof fn lemma_items_size_drop(items: Seq<ItemV>)
    requires
        items.len() > 0,
    ensures
        items_size(items) == item_size(items[0]) + items_size(items.drop_first()),
        items_size(items.drop_first()) < items_size(items),
        item_size(items[0]) <= items_size(items),
{
    assert(item_size(items[0]) >= 1) by {
        if items[0] is Scoped {
        }
    }
}

/// A parsed source file: its identifier and its top-level markup items.
#[derive(Debug, PartialEq, Eq)]
pub struct SourceFile {
    /// The identifier under which the world resolves this file.
    pub id: u64,
    /// The file's top-level markup, in source order.
    pub items: Vec<MarkupItem>,
}

/// The mathematical value of a [`SourceFile`].
pub ghost struct SourceV {
    /// The identifier under which the world resolves this file.
    pub id: u64,
    /// The file's top-level markup, in source order.
    pub items: Seq<ItemV>,
}

impl View for SourceFile {
    type V = SourceV;

    open spec fn view(&self) -> SourceV {
        SourceV { id: self.id, items: items_view(self.items@) }
    }
}

/// One binding of a scope: a name and the value bound to it.
#[derive(Debug, Clone, PartialEq, Eq)]
pub struct Binding {
    /// The bound name.
    pub name: Vec<u8>,
    /// The value it is bound to.
    pub value: u64,
}

/// The mathematical value of a [`Binding`].
pub ghost struct BindingV {
    /// The bound name.
    pub name: Seq<u8>,
    /// The value it is bound to.
    pub value: u64,
}

impl View for Binding {
    type V = BindingV;

    open spec fn view(&self) -> BindingV {
        BindingV { name: self.name@, value: self.value }
    }
}

/// The mathematical value of a scope: its bindings, oldest first.
pub open spec fn scope_view(scope: Seq<Binding>) -> Seq<BindingV> {
    scope.map_values(|b: Binding| b@)
}

} // verus!
