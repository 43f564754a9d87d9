//! Cascading style resolution over persistent style chains.
//!
//! A [`StyleChain`] is an append-only stack of property overrides.  A
//! scope that alters a property does not mutate the chain it was handed:
//! it resolves and descends with [`StyleChain::pushed`], a fresh chain
//! value whose last frame is the new override, while the original chain
//! stays valid and shared by sibling scopes.  Resolution walks the chain
//! from the innermost (most recently pushed) frame outwards and the first
//! override found wins; properties declared as accumulating are the
//! exception and fold every matching frame from outermost to innermost.

use vstd::prelude::*;

use crate::geom::{sat_add, spec_sat_add};

verus! {

/// A styleable property.
#[derive(Clone, Copy, PartialEq, Eq, Structural, Debug)]
pub enum Prop {
    /// Glyph size of a text run, in layout units.
    TextSize,
    /// Height of one paragraph line, in layout units.
    Leading,
    /// Extra indentation of flow content, in layout units.  This is an
    /// accumulating property: nested indents add up.
    Indent,
}

/// Whether resolving `p` folds all matching frames instead of stopping at
/// the innermost one.
pub open spec fn spec_accumulates(p: Prop) -> bool {
    p is Indent
}

/// Whether resolving `p` folds all matching frames instead of stopping at
/// the innermost one.
pub fn accumulates(p: Prop) -> (r: bool)
    ensures
        r == spec_accumulates(p),
{
    match p {
        Prop::Indent => true,
        _ => false,
    }
}

/// The value a property resolves to when no frame of the chain sets it.
pub open spec fn spec_default_of(p: Prop) -> u64 {
    match p {
        Prop::TextSize => 11000,
        Prop::Leading => 14000,
        Prop::Indent => 0,
    }
}

/// The value a property resolves to when no frame of the chain sets it.
pub fn default_of(p: Prop) -> (r: u64)
    ensures
        r == spec_default_of(p),
{
    match p {
        Prop::TextSize => 11000,
        Prop::Leading => 14000,
        Prop::Indent => 0,
    }
}

/// One override frame: entering a scope that sets `prop` to `value`
/// pushes one of these.
#[derive(Clone, Copy, PartialEq, Eq, Structural, Debug)]
pub struct StyleFrame {
    /// The property the frame overrides.
    pub prop: Prop,
    /// The value the frame sets it to.
    pub value: u64,
}

/// What a non-accumulating property resolves to under the given frames:
/// the innermost (last) matching frame wins, the default if none match.
pub open spec fn spec_resolve_first(frames: Seq<StyleFrame>, p: Prop) -> u64
    decreases frames.len(),
{
    if frames.len() == 0 {
        spec_default_of(p)
    } else if frames.last().prop == p {
        frames.last().value
    } else {
        spec_resolve_first(frames.drop_last(), p)
    }
}

/// What an accumulating property resolves to under the given frames: the
/// saturating sum of every matching frame, folded from outermost to
/// innermost on top of the default.
pub open spec fn spec_resolve_acc(frames: Seq<StyleFrame>, p: Prop) -> u64
    decreases frames.len(),
{
    if frames.len() == 0 {
        spec_default_of(p)
    } else if frames.last().prop == p {
        spec_sat_add(spec_resolve_acc(frames.drop_last(), p), frames.last().value)
    } else {
        spec_resolve_acc(frames.drop_last(), p)
    }
}

/// What `p` resolves to under the given frames.
pub open spec fn spec_resolve(frames: Seq<StyleFrame>, p: Prop) -> u64 {
    if spec_accumulates(p) {
        spec_resolve_acc(frames, p)
    } else {
        spec_resolve_first(frames, p)
    }
}

/// A persistent chain of style override frames.  Index `0` is the
/// outermost frame; the end of the vector is the innermost scope.
#[derive(Debug)]
pub struct StyleChain {
    /// The override frames, outermost first.
    pub frames: Vec<StyleFrame>,
}

impl View for StyleChain {
    type V = Seq<StyleFrame>;

    open spec fn view(&self) -> Seq<StyleFrame> {
        self.frames@
    }
}

impl StyleChain {
    /// The empty chain: every property resolves to its default.
    pub fn new() -> (r: StyleChain)
        ensures
            r@ == Seq::<StyleFrame>::empty(),
    {
        StyleChain { frames: Vec::new() }
    }

    /// A new chain extending `self` with one more override frame.  The
    /// chain itself is left untouched, so sibling scopes that still hold
    /// it are unaffected by the nested override.
    pub fn pushed(&self, frame: StyleFrame) -> (r: StyleChain)
        ensures
            r@ == self@.push(frame),
    {
        let mut frames: Vec<StyleFrame> = Vec::new();
        let mut i: usize = 0;
        while i < self.frames.len()
            invariant
                i <= self.frames.len(),
                frames@ == self.frames@.subrange(0, i as int),
            decreases self.frames.len() - i,
        {
            frames.push(self.frames[i]);
            i = i + 1;
            proof {
                assert(self.frames@.subrange(0, i as int) =~= self.frames@.subrange(
                    0,
                    i - 1,
                ).push(self.frames@[i - 1]));
            }
        }
        proof {
            assert(self.frames@.subrange(0, self.frames@.len() as int) =~= self.frames@);
        }
        frames.push(frame);
        StyleChain { frames }
    }

    /// Resolve property `p` under this chain.
    pub fn resolve(&self, p: Prop) -> (r: u64)
        ensures
            r == spec_resolve(self@, p),
    {
        let acc = accumulates(p);
        let mut r: u64 = default_of(p);
        let mut i: usize = 0;
        while i < self.frames.len()
            invariant
                i <= self.frames.len(),
                acc == spec_accumulates(p),
                acc ==> r == spec_resolve_acc(self.frames@.subrange(0, i as int), p),
                !acc ==> r == spec_resolve_first(self.frames@.subrange(0, i as int), p),
            decreases self.frames.len() - i,
        {
            let f = self.frames[i];
            if f.prop == p {
                if acc {
                    r = sat_add(r, f.value);
                } else {
                    r = f.value;
                }
            }
            i = i + 1;
            proof {
                let pre = self.frames@.subrange(0, i - 1);
                let cur = self.frames@.subrange(0, i as int);
                assert(cur.drop_last() =~= pre);
                assert(cur.last() == self.frames@[i - 1]);
            }
        }
        proof {
            assert(self.frames@.subrange(0, self.frames@.len() as int) =~= self.frames@);
        }
        r
    }
}

/// A property set on entering a scope is visible inside that scope: right
/// under the new frame, a non-accumulating property resolves to the value
/// just set, and an accumulating one to the outer resolution plus it.
pub proof fn lemma_scope_sets_property(frames: Seq<StyleFrame>, p: Prop, v: u64)
    ensures
        !spec_accumulates(p) ==> spec_resolve(frames.push(StyleFrame { prop: p, value: v }), p)
            == v,
        spec_accumulates(p) ==> spec_resolve(frames.push(StyleFrame { prop: p, value: v }), p)
            == spec_sat_add(spec_resolve(frames, p), v),
{
    let pushed = frames.push(StyleFrame { prop: p, value: v });
    assert(pushed.last() == StyleFrame { prop: p, value: v });
    assert(pushed.drop_last() =~= frames);
}

/// A property set in an outer scope stays visible in nested scopes unless
/// the nested frame overrides that same property: pushing a frame for a
/// different property changes no resolution.
pub proof fn lemma_outer_visible_unless_overridden(
    frames: Seq<StyleFrame>,
    f: StyleFrame,
    p: Prop,
)
    requires
        f.prop != p,
    ensures
        spec_resolve(frames.push(f), p) == spec_resolve(frames, p),
{
    let pushed = frames.push(f);
    assert(pushed.drop_last() =~= frames);
}

} // verus!
