//! The evaluator: from parsed source files to modules.
//!
//! Evaluation walks a file's markup in order, interprets expressions
//! against a scope seeded from the world's standard library, follows
//! imports through the world, and produces a [`Module`]: the bindings the
//! file exports plus its content tree.  A [`Route`] — the chain of
//! modules whose evaluation is in progress — is consulted before every
//! import; an identifier already on the route fails immediately with a
//! cyclic-import error instead of recursing, which bounds the recursion
//! depth by the number of distinct source files the world can resolve.
//! Evaluation fails fast: the first fatal error aborts the module, while
//! warnings recorded before it are kept.

use vstd::prelude::*;

use crate::content::{content_view, contents_view, Content, ContentV, Module, ModuleV};
use crate::diag::{Diagnostics, Fatal, FatalV, Span, WarnKind, Warning};
use crate::markup::{
    item_size, item_view, items_size, items_view, lemma_items_size_drop, lemma_items_view_len, scope_view, words_view, Binding, BindingV, Expr, ExprV, ItemV, MarkupItem,
};
use crate::world::{World, WorldModel};

verus! {

/// The chain of source identifiers whose evaluation is currently in
/// progress, used only for cycle detection.  It is extended, never
/// shrunk: leaving a module is represented by simply returning to the
/// caller's shorter route value.
pub struct Route {
    /// The identifiers on the route, outermost first.
    pub ids: Vec<u64>,
}

impl View for Route {
    type V = Seq<u64>;

    open spec fn view(&self) -> Seq<u64> {
        self.ids@
    }
}

impl Route {
    /// The empty route: no evaluation in progress.
    pub fn new() -> (r: Route)
        ensures
            r@ == Seq::<u64>::empty(),
    {
        Route { ids: Vec::new() }
    }

    /// Whether `id` is currently being evaluated.
    pub fn contains(&self, id: u64) -> (r: bool)
        ensures
            r == self@.contains(id),
    {
        let mut i: usize = 0;
        while i < self.ids.len()
            invariant
                i <= self.ids.len(),
                forall|j: int| 0 <= j < i ==> self.ids@[j] != id,
            decreases self.ids.len() - i,
        {
            if self.ids[i] == id {
                return true;
            }
            i = i + 1;
        }
        false
    }

    /// A new route extending this one by `id`; this route itself stays
    /// as it was, so sibling evaluations are unaffected.
    pub fn extended(&self, id: u64) -> (r: Route)
        ensures
            r@ == self@.push(id),
    {
        let mut ids: Vec<u64> = Vec::new();
        let mut i: usize = 0;
        while i < self.ids.len()
            invariant
                i <= self.ids.len(),
                ids@ == self.ids@.subrange(0, i as int),
            decreases self.ids.len() - i,
        {
            ids.push(self.ids[i]);
            i = i + 1;
            proof {
                assert(self.ids@.subrange(0, i as int) =~= self.ids@.subrange(0, i - 1).push(
                    self.ids@[i - 1],
                ));
            }
        }
        proof {
            assert(self.ids@.subrange(0, self.ids@.len() as int) =~= self.ids@);
        }
        ids.push(id);
        Route { ids }
    }
}

/// A route is sound for a world when no module appears on it twice and
/// everything on it is a source the world resolves.
pub open spec fn route_wf(m: WorldModel, route: Seq<u64>) -> bool {
    &&& route.no_duplicates()
    &&& forall|i: int| 0 <= i < route.len() ==> m.sources.dom().contains(#[trigger] route[i])
}

/// A sound route can never be longer than the world's set of sources —
/// the fact that bounds the depth of import recursion.
pub proof fn lemma_route_bound(m: WorldModel, route: Seq<u64>)
    requires
        m.wf(),
        route_wf(m, route),
    ensures
        route.len() <= m.sources.dom().len(),
{
    route.unique_seq_to_set();
    assert forall|x: u64| route.to_set().contains(x) implies m.sources.dom().contains(x) by {
        let i = choose|i: int| 0 <= i < route.len() && route[i] == x;
        assert(m.sources.dom().contains(route[i]));
    }
    vstd::set_lib::lemma_len_subset(route.to_set(), m.sources.dom());
}

/// What evaluating one binding scope lookup answers: the value of the
/// most recently added binding of that name, if any.
pub open spec fn spec_lookup(scope: Seq<BindingV>, name: Seq<u8>) -> Option<u64>
    decreases scope.len(),
{
    if scope.len() == 0 {
        Option::None
    } else if scope.last().name == name {
        Option::Some(scope.last().value)
    } else {
        spec_lookup(scope.drop_last(), name)
    }
}

/// What evaluating an expression under a scope yields: a literal is
/// itself; a reference is the value of the most recent binding of its
/// name, and an unbound name is a fatal error at the reference's span.
pub open spec fn spec_eval_expr(scope: Seq<BindingV>, e: ExprV) -> Result<u64, FatalV> {
    match e {
        ExprV::Lit { value } => Result::Ok(value),
        ExprV::Ref { name, span } => match spec_lookup(scope, name) {
            Option::Some(v) => Result::Ok(v),
            Option::None => Result::Err(FatalV::Unbound { name, span }),
        },
    }
}

/// What evaluating one module yields, together with the warnings the
/// evaluation deposited.
pub ghost struct EvalOut {
    /// The module, or the fatal error that aborted its evaluation.
    pub res: Result<ModuleV, FatalV>,
    /// The warnings recorded during the evaluation, in order.
    pub warns: Seq<Warning>,
}

/// What evaluating a run of markup items yields.
pub ghost struct ItemsOut {
    /// On success, the scope after the run and the content it produced;
    /// otherwise the fatal error that aborted the run.
    pub res: Result<ItemsDone, FatalV>,
    /// The warnings recorded during the run, in order.
    pub warns: Seq<Warning>,
}

/// The successful outcome of evaluating a run of markup items.
pub ghost struct ItemsDone {
    /// The scope after the run: the incoming scope plus any bindings the
    /// run added.
    pub scope: Seq<BindingV>,
    /// The content the run produced, in source order.
    pub content: Seq<ContentV>,
}

/// Evaluating the module `id`, reached from an import at `span`, as a
/// pure function of the world model.  An identifier already on the route
/// fails with the cyclic-import error carrying the whole chain; an
/// unresolvable identifier fails with a file-not-found error; otherwise
/// the file's items are evaluated under the standard scope with the
/// route extended by `id`, and the bindings the file itself added are
/// exported.
pub open spec fn spec_eval_module(m: WorldModel, route: Seq<u64>, id: u64, span: Span) -> EvalOut
    decreases m.sources.dom().len() - route.len(), 0nat, 0nat
        when m.wf() && route_wf(m, route)
    via spec_eval_module_decreases
{
    if route.contains(id) {
        EvalOut {
            res: Result::Err(FatalV::Cyclic { chain: route.push(id), span }),
            warns: Seq::empty(),
        }
    } else if !m.sources.dom().contains(id) {
        EvalOut { res: Result::Err(FatalV::FileNotFound { id, span }), warns: Seq::empty() }
    } else {
        let items = m.sources[id].items;
        let out = spec_eval_items(m, route.push(id), m.lib, items);
        match out.res {
            Result::Err(e) => EvalOut { res: Result::Err(e), warns: out.warns },
            Result::Ok(done) => EvalOut {
                res: Result::Ok(
                    ModuleV {
                        scope: done.scope.skip(m.lib.len() as int),
                        content: done.content,
                    },
                ),
                warns: out.warns,
            },
        }
    }
}

#[via_fn]
proof fn spec_eval_module_decreases(m: WorldModel, route: Seq<u64>, id: u64, span: Span) {
    if !route.contains(id) && m.sources.dom().contains(id) {
        assert(route.push(id).no_duplicates());
        assert(forall|i: int|
            0 <= i < route.push(id).len() ==> m.sources.dom().contains(
                #[trigger] route.push(id)[i],
            ));
        lemma_route_bound(m, route.push(id));
    }
}

/// Evaluating a run of markup items under a scope, as a pure function of
/// the world model: items are handled in source order, each contributing
/// its content and possibly extending the scope, and the first fatal
/// error aborts the run while keeping the warnings recorded before it.
pub open spec fn spec_eval_items(
    m: WorldModel,
    route: Seq<u64>,
    scope: Seq<BindingV>,
    items: Seq<ItemV>,
) -> ItemsOut
    decreases m.sources.dom().len() - route.len(), items_size(items), 1nat
        when m.wf() && route_wf(m, route)
    via spec_eval_items_decreases
{
    if items.len() == 0 {
        ItemsOut {
            res: Result::Ok(ItemsDone { scope, content: Seq::empty() }),
            warns: Seq::empty(),
        }
    } else {
        let rest_items = items.drop_first();
        match items[0] {
            ItemV::Par { words, span } => prepend_content(
                ContentV::Par { words, span },
                spec_eval_items(m, route, scope, rest_items),
            ),
            ItemV::Image { id, width, height, span } => prepend_content(
                ContentV::Image { id, width, height, span },
                spec_eval_items(m, route, scope, rest_items),
            ),
            ItemV::Today { span } => match m.today {
                Option::Some(date) => prepend_content(
                    ContentV::Date { date, span },
                    spec_eval_items(m, route, scope, rest_items),
                ),
                Option::None => {
                    let rest = spec_eval_items(m, route, scope, rest_items);
                    ItemsOut {
                        res: rest.res,
                        warns: seq![Warning { span, kind: WarnKind::DateUnavailable }]
                            + rest.warns,
                    }
                },
            },
            ItemV::Import { id, span } => {
                let sub = spec_eval_module(m, route, id, span);
                match sub.res {
                    Result::Err(e) => ItemsOut { res: Result::Err(e), warns: sub.warns },
                    Result::Ok(module) => {
                        let rest = spec_eval_items(
                            m,
                            route,
                            scope + module.scope,
                            rest_items,
                        );
                        match rest.res {
                            Result::Err(e) => ItemsOut {
                                res: Result::Err(e),
                                warns: sub.warns + rest.warns,
                            },
                            Result::Ok(done) => ItemsOut {
                                res: Result::Ok(
                                    ItemsDone {
                                        scope: done.scope,
                                        content: module.content + done.content,
                                    },
                                ),
                                warns: sub.warns + rest.warns,
                            },
                        }
                    },
                }
            },
            ItemV::Bind { name, init, span } => match spec_eval_expr(scope, init) {
                Result::Err(e) => ItemsOut { res: Result::Err(e), warns: Seq::empty() },
                Result::Ok(v) => spec_eval_items(
                    m,
                    route,
                    scope.push(BindingV { name, value: v }),
                    rest_items,
                ),
            },
            ItemV::Scoped { prop, value, body, span } => match spec_eval_expr(scope, value) {
                Result::Err(e) => ItemsOut { res: Result::Err(e), warns: Seq::empty() },
                Result::Ok(v) => {
                    let inner = spec_eval_items(m, route, scope, body);
                    match inner.res {
                        Result::Err(e) => ItemsOut { res: Result::Err(e), warns: inner.warns },
                        Result::Ok(idone) => {
                            let rest = spec_eval_items(m, route, scope, rest_items);
                            match rest.res {
                                Result::Err(e) => ItemsOut {
                                    res: Result::Err(e),
                                    warns: inner.warns + rest.warns,
                                },
                                Result::Ok(done) => ItemsOut {
                                    res: Result::Ok(
                                        ItemsDone {
                                            scope: done.scope,
                                            content: seq![
                                                ContentV::Styled {
                                                    prop,
                                                    value: v,
                                                    body: idone.content,
                                                    span,
                                                },
                                            ] + done.content,
                                        },
                                    ),
                                    warns: inner.warns + rest.warns,
                                },
                            }
                        },
                    }
                },
            },
        }
    }
}

#[via_fn]
proof fn spec_eval_items_decreases(
    m: WorldModel,
    route: Seq<u64>,
    scope: Seq<BindingV>,
    items: Seq<ItemV>,
) {
    if items.len() > 0 {
        lemma_items_size_drop(items);
        if items[0] is Scoped {
            assert(item_size(items[0]) == 1 + items_size(items[0]->Scoped_body));
        }
    }
}

/// Prepending one piece of content to the outcome of the rest of a run.
pub open spec fn prepend_content(c: ContentV, rest: ItemsOut) -> ItemsOut {
    match rest.res {
        Result::Err(e) => rest,
        Result::Ok(done) => ItemsOut {
            res: Result::Ok(ItemsDone { scope: done.scope, content: seq![c] + done.content }),
            warns: rest.warns,
        },
    }
}


/// Copy a byte string.
pub fn clone_bytes(v: &Vec<u8>) -> (r: Vec<u8>)
    ensures
        r@ == v@,
{
    let mut r: Vec<u8> = Vec::new();
    let mut i: usize = 0;
    while i < v.len()
        invariant
            i <= v.len(),
            r@ == v@.subrange(0, i as int),
        decreases v.len() - i,
    {
        r.push(v[i]);
        i = i + 1;
        proof {
            assert(v@.subrange(0, i as int) =~= v@.subrange(0, i - 1).push(v@[i - 1]));
        }
    }
    proof {
        assert(v@.subrange(0, v@.len() as int) =~= v@);
    }
    r
}

/// Copy a word list.
pub fn clone_words(v: &Vec<Vec<u8>>) -> (r: Vec<Vec<u8>>)
    ensures
        words_view(r@) == words_view(v@),
{
    let mut r: Vec<Vec<u8>> = Vec::new();
    let mut i: usize = 0;
    while i < v.len()
        invariant
            i <= v.len(),
            r@.len() == i,
            forall|j: int| 0 <= j < i ==> r@[j]@ == v@[j]@,
        decreases v.len() - i,
    {
        r.push(clone_bytes(&v[i]));
        i = i + 1;
    }
    proof {
        assert(words_view(r@) =~= words_view(v@));
    }
    r
}

/// Copy a scope.
pub fn clone_scope(v: &Vec<Binding>) -> (r: Vec<Binding>)
    ensures
        scope_view(r@) == scope_view(v@),
{
    let mut r: Vec<Binding> = Vec::new();
    let mut i: usize = 0;
    while i < v.len()
        invariant
            i <= v.len(),
            r@.len() == i,
            forall|j: int| 0 <= j < i ==> r@[j]@ == v@[j]@,
        decreases v.len() - i,
    {
        let name = clone_bytes(&v[i].name);
        r.push(Binding { name, value: v[i].value });
        i = i + 1;
    }
    proof {
        assert(scope_view(r@) =~= scope_view(v@));
    }
    r
}

/// Whether two byte strings hold the same bytes.
pub fn bytes_eq(a: &Vec<u8>, b: &Vec<u8>) -> (r: bool)
    ensures
        r == (a@ == b@),
{
    if a.len() != b.len() {
        proof {
            assert(a@.len() != b@.len());
        }
        return false;
    }
    let mut i: usize = 0;
    while i < a.len()
        invariant
            i <= a.len(),
            a@.len() == b@.len(),
            forall|j: int| 0 <= j < i ==> a@[j] == b@[j],
        decreases a.len() - i,
    {
        if a[i] != b[i] {
            proof {
                assert(a@[i as int] != b@[i as int]);
            }
            return false;
        }
        i = i + 1;
    }
    proof {
        assert(a@ =~= b@);
    }
    true
}

/// Look a name up in the first `j` bindings of a scope.
fn lookup_upto(scope: &Vec<Binding>, name: &Vec<u8>, j: usize) -> (r: Option<u64>)
    requires
        j <= scope.len(),
    ensures
        r == spec_lookup(scope_view(scope@).subrange(0, j as int), name@),
    decreases j,
{
    proof {
        assert(scope_view(scope@).len() == scope@.len());
    }
    if j == 0 {
        proof {
            assert(scope_view(scope@).subrange(0, 0) =~= Seq::<BindingV>::empty());
        }
        Option::None
    } else {
        let ghost pre = scope_view(scope@).subrange(0, j as int);
        proof {
            assert(pre.last() == scope_view(scope@)[j - 1]);
            assert(scope_view(scope@)[j - 1] == scope@[j - 1]@);
            assert(pre.drop_last() =~= scope_view(scope@).subrange(0, j - 1));
        }
        if bytes_eq(&scope[j - 1].name, name) {
            Option::Some(scope[j - 1].value)
        } else {
            lookup_upto(scope, name, j - 1)
        }
    }
}

/// Look a name up in a scope: the most recent binding wins.
pub fn lookup(scope: &Vec<Binding>, name: &Vec<u8>) -> (r: Option<u64>)
    ensures
        r == spec_lookup(scope_view(scope@), name@),
{
    let r = lookup_upto(scope, name, scope.len());
    proof {
        assert(scope_view(scope@).subrange(0, scope@.len() as int) =~= scope_view(scope@));
    }
    r
}


/// Whether an executable expression result carries the mathematical one.
pub open spec fn expr_agrees(r: Result<u64, Fatal>, out: Result<u64, FatalV>) -> bool {
    match (r, out) {
        (Result::Ok(v), Result::Ok(vv)) => v == vv,
        (Result::Err(f), Result::Err(fv)) => f@ == fv,
        _ => false,
    }
}

/// Whether an executable module result carries the mathematical one.
pub open spec fn module_agrees(r: Result<Module, Fatal>, out: Result<ModuleV, FatalV>) -> bool {
    match (r, out) {
        (Result::Ok(module), Result::Ok(mv)) => module@ == mv,
        (Result::Err(f), Result::Err(fv)) => f@ == fv,
        _ => false,
    }
}

/// Whether an executable item-run result carries the mathematical one.
pub open spec fn items_agrees(r: Result<(Vec<Binding>, Vec<Content>), Fatal>, out: Result<ItemsDone, FatalV>) -> bool {
    match (r, out) {
        (Result::Ok(done), Result::Ok(dv)) => {
            &&& scope_view(done.0@) == dv.scope
            &&& contents_view(done.1@) == dv.content
        },
        (Result::Err(f), Result::Err(fv)) => f@ == fv,
        _ => false,
    }
}

/// Evaluate an expression under a scope.
pub fn eval_expr(scope: &Vec<Binding>, ex: &Expr) -> (r: Result<u64, Fatal>)
    ensures
        expr_agrees(r, spec_eval_expr(scope_view(scope@), ex@)),
{
    match ex {
        Expr::Lit { value } => Result::Ok(*value),
        Expr::Ref { name, span } => match lookup(scope, name) {
            Option::Some(v) => Result::Ok(v),
            Option::None => Result::Err(Fatal::Unbound { name: clone_bytes(name), span: *span }),
        },
    }
}


/// The mathematical value of the items of a run from position `i` on.
pub open spec fn tail_view(items: Seq<MarkupItem>, i: int) -> Seq<ItemV> {
    items_view(items.subrange(i, items.len() as int))
}

/// What evaluating a run of executable items from position `i` on yields.
pub open spec fn items_out(m: WorldModel, route: Seq<u64>, scope: Seq<Binding>, items: Seq<MarkupItem>, i: int) -> ItemsOut {
    spec_eval_items(m, route, scope_view(scope), tail_view(items, i))
}

/// Evaluate the module `id`, reached from an import (or the compilation
/// entry) at `span`.  The result and the warnings deposited into `diags`
/// are exactly those of `spec_eval_module` on the world's model.
pub fn eval_module<W: World>(world: &W, route: &Route, diags: &mut Diagnostics, id: u64, span: Span) -> (r: Result<Module, Fatal>)
    requires
        world.model().wf(),
        route_wf(world.model(), route@),
    ensures
        module_agrees(r, spec_eval_module(world.model(), route@, id, span).res),
        final(diags)@ == old(diags)@ + spec_eval_module(world.model(), route@, id, span).warns,
    decreases world.model().sources.dom().len() - route@.len(), 0nat,
{
    let ghost m = world.model();
    if route.contains(id) {
        let chain_route = route.extended(id);
        proof {
            assert(old(diags)@ + Seq::<Warning>::empty() =~= old(diags)@);
        }
        return Result::Err(Fatal::Cyclic { chain: chain_route.ids, span });
    }
    match world.source(id) {
        Result::Err(_) => {
            proof {
                assert(old(diags)@ + Seq::<Warning>::empty() =~= old(diags)@);
            }
            Result::Err(Fatal::FileNotFound { id, span })
        },
        Result::Ok(src) => {
            let route2 = route.extended(id);
            let lib = world.library();
            let lib_len = lib.len();
            proof {
                assert forall|k: int| 0 <= k < route@.len() implies route@[k] != id by {
                    if route@[k] == id {
                        assert(route@.contains(id));
                    }
                }
                assert(route2@.no_duplicates());
                assert(forall|k: int|
                    0 <= k < route2@.len() ==> m.sources.dom().contains(#[trigger] route2@[k]));
                lemma_route_bound(m, route2@);
                assert(src.items@.subrange(0, src.items@.len() as int) =~= src.items@);
                assert(tail_view(src.items@, 0) == m.sources[id].items);
                assert(scope_view(lib@) == m.lib);
            }
            match eval_items(world, &route2, diags, lib, &src.items, 0) {
                Result::Err(e) => Result::Err(e),
                Result::Ok((sc, cs)) => {
                    let ghost full = sc@;
                    let mut sc2 = sc;
                    let export = sc2.split_off(lib_len);
                    proof {
                        assert(scope_view(full).len() == full.len());
                        assert(scope_view(export@) =~= scope_view(full).skip(lib_len as int));
                    }
                    Result::Ok(Module { scope: export, content: cs })
                },
            }
        },
    }
}

/// Evaluate the items of a run from position `i` on, under `scope`.  The
/// result and the warnings deposited into `diags` are exactly those of
/// `spec_eval_items` on the remaining items; on success the resulting
/// scope extends the incoming one.
pub fn eval_items<W: World>(world: &W, route: &Route, diags: &mut Diagnostics, scope: Vec<Binding>, items: &Vec<MarkupItem>, i: usize) -> (r: Result<(Vec<Binding>, Vec<Content>), Fatal>)
    requires
        world.model().wf(),
        route_wf(world.model(), route@),
        i <= items.len(),
    ensures
        items_agrees(r, items_out(world.model(), route@, scope@, items@, i as int).res),
        final(diags)@ == old(diags)@ + items_out(world.model(), route@, scope@, items@, i as int).warns,
        ((r is Ok) ==> r->Ok_0.0@.len() >= scope@.len()),
    decreases world.model().sources.dom().len() - route@.len(), items_size(tail_view(items@, i as int)),
{
    let ghost m = world.model();
    let ghost tail = tail_view(items@, i as int);
    if i == items.len() {
        proof {
            assert(items@.subrange(i as int, items@.len() as int) =~= Seq::<MarkupItem>::empty());
            assert(old(diags)@ + Seq::<Warning>::empty() =~= old(diags)@);
            assert(contents_view(Seq::<Content>::empty()) == Seq::<ContentV>::empty());
        }
        return Result::Ok((scope, Vec::new()));
    }
    let ghost sub_i = items@.subrange(i as int, items@.len() as int);
    proof {
        assert(sub_i[0] == items@[i as int]);
        assert(sub_i.drop_first() =~= items@.subrange(i as int + 1, items@.len() as int));
        lemma_items_view_len(sub_i);
        assert(tail == seq![item_view(sub_i[0])] + items_view(sub_i.drop_first()));
        assert(tail[0] == item_view(items@[i as int]));
        assert(items_view(sub_i.drop_first()) == tail_view(items@, i as int + 1));
        assert(tail.drop_first() =~= items_view(sub_i.drop_first()));
        lemma_items_size_drop(tail);
        assert(items_size(tail_view(items@, i as int + 1)) < items_size(tail));
        lemma_route_bound(m, route@);
    }
    let item = &items[i];
    proof {
        assert(*item == items@[i as int]);
    }
    match item {
        MarkupItem::Par { words, span } => {
            let cloned = clone_words(words);
            match eval_items(world, route, diags, scope, items, i + 1) {
                Result::Err(e) => Result::Err(e),
                Result::Ok((sc, cs)) => {
                    let ghost csv = cs@;
                    let mut content: Vec<Content> = Vec::new();
                    content.push(Content::Par { words: cloned, span: *span });
                    let mut cs2 = cs;
                    content.append(&mut cs2);
                    proof {
                        let node = Content::Par { words: cloned, span: *span };
                        assert(content@ == seq![node] + csv);
                        assert((seq![node] + csv)[0] == node);
                        assert((seq![node] + csv).drop_first() =~= csv);
                        assert(contents_view(content@) == seq![content_view(node)] + contents_view(csv));
                    }
                    Result::Ok((sc, content))
                },
            }
        },
        MarkupItem::Image { id, width, height, span } => {
            let node = Content::Image { id: *id, width: *width, height: *height, span: *span };
            match eval_items(world, route, diags, scope, items, i + 1) {
                Result::Err(e) => Result::Err(e),
                Result::Ok((sc, cs)) => {
                    let ghost csv = cs@;
                    let mut content: Vec<Content> = Vec::new();
                    content.push(node);
                    let mut cs2 = cs;
                    content.append(&mut cs2);
                    proof {
                        assert(content@ == seq![node] + csv);
                        assert((seq![node] + csv)[0] == node);
                        assert((seq![node] + csv).drop_first() =~= csv);
                        assert(contents_view(content@) == seq![content_view(node)] + contents_view(csv));
                    }
                    Result::Ok((sc, content))
                },
            }
        },
        MarkupItem::Today { span } => {
            match world.today(Option::None) {
                Option::Some(date) => {
                    let node = Content::Date { date, span: *span };
                    match eval_items(world, route, diags, scope, items, i + 1) {
                        Result::Err(e) => Result::Err(e),
                        Result::Ok((sc, cs)) => {
                            let ghost csv = cs@;
                            let mut content: Vec<Content> = Vec::new();
                            content.push(node);
                            let mut cs2 = cs;
                            content.append(&mut cs2);
                            proof {
                                assert(content@ == seq![node] + csv);
                                assert((seq![node] + csv)[0] == node);
                                assert((seq![node] + csv).drop_first() =~= csv);
                                assert(contents_view(content@) == seq![content_view(node)]
                                    + contents_view(csv));
                            }
                            Result::Ok((sc, content))
                        },
                    }
                },
                Option::None => {
                    let w = Warning { span: *span, kind: WarnKind::DateUnavailable };
                    diags.warn(w);
                    let r = eval_items(world, route, diags, scope, items, i + 1);
                    proof {
                        let rest = items_out(m, route@, scope@, items@, i as int + 1);
                        assert((old(diags)@.push(w)) + rest.warns =~= old(diags)@ + (seq![w]
                            + rest.warns));
                    }
                    r
                },
            }
        },
        MarkupItem::Import { id, span } => {
            match eval_module(world, route, diags, *id, *span) {
                Result::Err(e) => Result::Err(e),
                Result::Ok(module) => {
                    let ghost dmid = diags@;
                    let ghost mscope = module.scope@;
                    let ghost mcontent = module.content@;
                    let mut scope2 = scope;
                    let mut msc = module.scope;
                    scope2.append(&mut msc);
                    proof {
                        assert(scope_view(scope2@) =~= scope_view(scope@) + scope_view(mscope));
                    }
                    match eval_items(world, route, diags, scope2, items, i + 1) {
                        Result::Err(e) => {
                            proof {
                                let sub = spec_eval_module(m, route@, *id, *span);
                                let rest = items_out(m, route@, scope2@, items@, i as int + 1);
                                assert(dmid + rest.warns =~= old(diags)@ + (sub.warns
                                    + rest.warns));
                            }
                            Result::Err(e)
                        },
                        Result::Ok((sc, cs)) => {
                            let ghost csv = cs@;
                            let mut content = module.content;
                            let mut cs2 = cs;
                            content.append(&mut cs2);
                            proof {
                                crate::content::lemma_contents_view_concat(mcontent, csv);
                                let sub = spec_eval_module(m, route@, *id, *span);
                                let rest = items_out(m, route@, scope2@, items@, i as int + 1);
                                assert(dmid + rest.warns =~= old(diags)@ + (sub.warns
                                    + rest.warns));
                            }
                            Result::Ok((sc, content))
                        },
                    }
                },
            }
        },
        MarkupItem::Bind { name, init, span } => {
            match eval_expr(&scope, init) {
                Result::Err(e) => {
                    proof {
                        assert(old(diags)@ + Seq::<Warning>::empty() =~= old(diags)@);
                    }
                    Result::Err(e)
                },
                Result::Ok(v) => {
                    let bname = clone_bytes(name);
                    let mut scope2 = scope;
                    scope2.push(Binding { name: bname, value: v });
                    proof {
                        assert(scope_view(scope2@) =~= scope_view(scope@).push(
                            BindingV { name: name@, value: v },
                        ));
                    }
                    eval_items(world, route, diags, scope2, items, i + 1)
                },
            }
        },
        MarkupItem::Scoped { prop, value, body, span } => {
            match eval_expr(&scope, value) {
                Result::Err(e) => {
                    proof {
                        assert(old(diags)@ + Seq::<Warning>::empty() =~= old(diags)@);
                    }
                    Result::Err(e)
                },
                Result::Ok(v) => {
                    let scope_copy = clone_scope(&scope);
                    proof {
                        assert(body@.subrange(0, body@.len() as int) =~= body@);
                        assert(tail_view(body@, 0) == items_view(body@));
                        assert(item_size(tail[0]) == 1 + items_size(items_view(body@)));
                    }
                    match eval_items(world, route, diags, scope_copy, body, 0) {
                        Result::Err(e) => Result::Err(e),
                        Result::Ok((inner_scope, inner_cs)) => {
                            let ghost dmid = diags@;
                            let ghost innerv = inner_cs@;
                            match eval_items(world, route, diags, scope, items, i + 1) {
                                Result::Err(e) => {
                                    proof {
                                        let inner = spec_eval_items(m, route@, scope_view(scope@),
                                            items_view(body@));
                                        let rest = items_out(m, route@, scope@, items@,
                                            i as int + 1);
                                        assert(dmid + rest.warns =~= old(diags)@ + (inner.warns
                                            + rest.warns));
                                    }
                                    Result::Err(e)
                                },
                                Result::Ok((sc, cs)) => {
                                    let ghost csv = cs@;
                                    let node = Content::Styled {
                                        prop: *prop,
                                        value: v,
                                        body: inner_cs,
                                        span: *span,
                                    };
                                    let mut content: Vec<Content> = Vec::new();
                                    content.push(node);
                                    let mut cs2 = cs;
                                    content.append(&mut cs2);
                                    proof {
                                        let inner = spec_eval_items(m, route@, scope_view(scope@),
                                            items_view(body@));
                                        let rest = items_out(m, route@, scope@, items@,
                                            i as int + 1);
                                        assert(dmid + rest.warns =~= old(diags)@ + (inner.warns
                                            + rest.warns));
                                        assert(content@ == seq![node] + csv);
                                        assert((seq![node] + csv)[0] == node);
                                        assert((seq![node] + csv).drop_first() =~= csv);
                                        assert(contents_view(content@) == seq![content_view(node)]
                                            + contents_view(csv));
                                    }
                                    Result::Ok((sc, content))
                                },
                            }
                        },
                    }
                },
            }
        },
    }
}

} // verus!
