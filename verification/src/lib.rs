//! A verified compiler core for a paginated markup language.
//!
//! The pipeline turns a parsed source file into a fixed-geometry,
//! paginated document in two stages.  *Evaluation* walks the markup of a
//! source file, follows imports through a caller-supplied [`world::World`],
//! guards against cyclic imports with an explicit [`eval::Route`], and
//! produces a [`content::Module`]: an exported scope of named values plus
//! a hierarchical, style-annotated content tree.  *Typesetting* resolves
//! styles through persistent [`style::StyleChain`]s, breaks paragraphs
//! into lines, and places every piece of content onto pages, fragmenting
//! flow content at line boundaries and degrading missing references to
//! placeholders and warnings instead of failing.  A [`memo::Memo`] cache
//! keyed by content fingerprints lets unchanged pages be reused across
//! recompilations without ever changing the result.
//!
//! Every stage is specified by a pure function of a
//! [`world::WorldModel`], and the executable pipeline is proved to return
//! exactly that value, so compilation is deterministic and
//! cache-transparent by contract.

use vstd::prelude::*;

pub mod content;
pub mod diag;
pub mod eval;
pub mod geom;
pub mod layout;
pub mod markup;
pub mod memo;
pub mod style;
pub mod world;

pub use crate::world::World;

use crate::diag::{Diagnostics, Fatal, FatalV, Span, Warning};
use crate::eval::{route_wf, spec_eval_items, spec_eval_module, Route};
use crate::geom::{default_page, spec_default_page, PageSpec};
use crate::layout::{spec_typeset, typeset, Document, DocumentV};
use crate::markup::ItemV;
use crate::memo::Memo;
use crate::world::WorldModel;

verus! {

/// What one compilation deposits: either a finished document or the
/// fatal error that aborted evaluation, together with the warnings
/// gathered on the way.
#[verifier::ext_equal]
pub ghost struct CompileOut {
    /// The document, or the fatal evaluation error.
    pub res: Result<DocumentV, FatalV>,
    /// Every warning recorded during the compilation, in order.
    pub warns: Seq<Warning>,
}

/// The compilation pipeline as a pure function of the world model: the
/// main source is evaluated to a module (failing fast on missing files,
/// cyclic imports and unbound names), and on success the module's
/// content is typeset onto pages of the given geometry.
pub open spec fn spec_compile(m: WorldModel, page: PageSpec) -> CompileOut {
    let entry = Span { file: m.main, start: 0, end: 0 };
    let ev = spec_eval_module(m, Seq::empty(), m.main, entry);
    match ev.res {
        Result::Err(e) => CompileOut { res: Result::Err(e), warns: ev.warns },
        Result::Ok(module) => {
            let ts = spec_typeset(m, module.content, page);
            CompileOut { res: Result::Ok(ts.doc), warns: ev.warns + ts.warns }
        },
    }
}

/// Whether an executable compilation result carries the mathematical one.
pub open spec fn compile_agrees(r: Result<Document, Fatal>, out: Result<DocumentV, FatalV>) -> bool {
    match (r, out) {
        (Result::Ok(doc), Result::Ok(docv)) => doc@ == docv,
        (Result::Err(e), Result::Err(ev)) => e@ == ev,
        _ => false,
    }
}

/// Compile the world's main source file into a fully laid-out document
/// on the default page geometry.
///
/// The result is exactly `spec_compile` of the world's model: it depends
/// only on the provider's contents, never on the state of the
/// memoization cache, and all warnings are deposited into `diags`
/// whether or not a document is produced.
pub fn compile<W: World>(world: &W, memo: &mut Memo, diags: &mut Diagnostics) -> (r: Result<
    Document,
    Fatal,
>)
    requires
        world.model().wf(),
        old(memo).wf(),
    ensures
        final(memo).wf(),
        final(memo).enabled == old(memo).enabled,
        compile_agrees(r, spec_compile(world.model(), spec_default_page()).res),
        final(diags)@ == old(diags)@ + spec_compile(world.model(), spec_default_page()).warns,
{
    let page = default_page();
    compile_with(world, page, memo, diags)
}

/// Compile the world's main source file onto pages of the given
/// geometry.  See [`compile`].
pub fn compile_with<W: World>(world: &W, page: PageSpec, memo: &mut Memo, diags: &mut Diagnostics) -> (r: Result<Document, Fatal>)
    requires
        world.model().wf(),
        old(memo).wf(),
    ensures
        final(memo).wf(),
        final(memo).enabled == old(memo).enabled,
        compile_agrees(r, spec_compile(world.model(), page).res),
        final(diags)@ == old(diags)@ + spec_compile(world.model(), page).warns,
{
    let ghost m = world.model();
    let route = Route::new();
    let main_id = world.main_id();
    let entry = Span { file: main_id, start: 0, end: 0 };
    proof {
        assert(route_wf(m, route@));
    }
    match crate::eval::eval_module(world, &route, diags, main_id, entry) {
        Result::Err(e) => Result::Err(e),
        Result::Ok(module) => {
            let ghost ev = spec_eval_module(m, Seq::empty(), m.main, entry);
            let ghost dmid = diags@;
            let doc = typeset(world, &module.content, page, memo, diags);
            proof {
                let ts = spec_typeset(m, ev.res->Ok_0.content, page);
                assert(dmid + ts.warns =~= old(diags)@ + (ev.warns + ts.warns));
            }
            Result::Ok(doc)
        },
    }
}

/// Compilation is deterministic: two compilations against providers with
/// the same contents, on the same page geometry, yield value-equal
/// documents and diagnostics.  Together with the `ensures` of
/// [`compile`], which pins the executable result to `spec_compile` of
/// the model, this carries over to any two runs of the compiler, however
/// far apart.
pub proof fn lemma_compile_deterministic(m1: WorldModel, m2: WorldModel, page: PageSpec)
    requires
        m1 == m2,
    ensures
        spec_compile(m1, page) == spec_compile(m2, page),
{
}

/// A main source whose first item imports the main source itself fails
/// with a cyclic-import diagnostic: the import finds its target already
/// on the route and stops, instead of recursing.  That the evaluator
/// cannot recurse unboundedly on any input — cycles of every length
/// included — is expressed by its termination measure, which Verus
/// checks for every call.
pub proof fn lemma_self_import_cycles(m: WorldModel, page: PageSpec, span: Span)
    requires
        m.wf(),
        m.sources[m.main].items.len() > 0,
        m.sources[m.main].items[0] == (ItemV::Import { id: m.main, span }),
    ensures
        spec_compile(m, page).res is Err,
        spec_compile(m, page).res->Err_0 is Cyclic,
{
    let entry = Span { file: m.main, start: 0, end: 0 };
    let route0 = Seq::<u64>::empty();
    assert(route_wf(m, route0));
    assert(!route0.contains(m.main));
    let route1 = route0.push(m.main);
    assert(route1[0] == m.main);
    assert(route1.contains(m.main));
    assert forall|i: int| 0 <= i < route1.len() implies m.sources.dom().contains(
        #[trigger] route1[i],
    ) by {
        assert(route1[i] == m.main);
    }
    assert(route_wf(m, route1));
    let items = m.sources[m.main].items;
    let sub = spec_eval_module(m, route1, m.main, span);
    assert(sub.res is Err && sub.res->Err_0 is Cyclic);
    let out = spec_eval_items(m, route1, m.lib, items);
    assert(out.res is Err && out.res->Err_0 == sub.res->Err_0);
    let ev = spec_eval_module(m, route0, m.main, entry);
    assert(ev.res is Err && ev.res->Err_0 == out.res->Err_0);
}

} // verus!
