//! The environment a compilation runs against.
//!
//! A [`World`] supplies everything the pipeline reads: the standard
//! scope, the font book, the main source file, further sources and raw
//! files by identifier, fonts by index, and the current date.  Its
//! abstract [`WorldModel`] is the mathematical content of the provider;
//! every loading method is specified against it, which is what makes the
//! whole compilation a pure function of the provider's contents.
//!
//! Loading methods are expected to be internally cheap on repeated calls
//! with the same argument — the pipeline does not re-cache raw loads.

use vstd::prelude::*;

use crate::content::{Datetime, Font, FontBook};
use crate::diag::FileError;
use crate::eval::{clone_bytes, clone_scope, clone_words};
use crate::markup::{
    item_size, item_view, items_size, items_view, lemma_items_size_drop, lemma_items_view_len,
    scope_view, words_view, Binding, BindingV, Expr, MarkupItem, SourceV, SourceFile,
};

verus! {

/// The mathematical contents of a provider: what each of its loading
/// methods would answer.
pub ghost struct WorldModel {
    /// The standard scope every module's evaluation starts from.
    pub lib: Seq<BindingV>,
    /// The family names of the known fonts, by index.
    pub book: Seq<Seq<u8>>,
    /// The identifier of the main source file.
    pub main: u64,
    /// The parsed source files the provider can resolve.
    pub sources: Map<u64, SourceV>,
    /// The raw files the provider can resolve.
    pub files: Map<u64, Seq<u8>>,
    /// The indices of the book for which font data is actually loadable.
    pub fonts: Set<usize>,
    /// The current date, if the provider knows one.
    pub today: Option<Datetime>,
}

impl WorldModel {
    /// A provider is usable when it resolves finitely many sources and
    /// the main file is among them.
    pub open spec fn wf(self) -> bool {
        &&& self.sources.dom().finite()
        &&& self.sources.dom().contains(self.main)
    }
}

/// The environment in which compilation occurs.  Implementations outside
/// this crate supply sources, files, fonts and the date; every method is
/// bound by contract to the provider's abstract [`WorldModel`], so two
/// calls with the same argument against an unchanged provider answer the
/// same value.
pub trait World: Sized {
    /// The mathematical contents of this provider.
    spec fn model(&self) -> WorldModel;

    /// The standard scope, used as the outermost scope of every module.
    fn library(&self) -> (r: Vec<Binding>)
        ensures
            crate::markup::scope_view(r@) == self.model().lib,
    ;

    /// Metadata about all known fonts.
    fn book(&self) -> (r: FontBook)
        ensures
            r@ == self.model().book,
    ;

    /// The identifier of the main source file.
    fn main_id(&self) -> (r: u64)
        ensures
            r == self.model().main,
    ;

    /// Access the main source file.
    fn main(&self) -> (r: SourceFile)
        requires
            self.model().wf(),
        ensures
            r@ == self.model().sources[self.model().main],
    ;

    /// Try to access the source file with the given identifier.
    fn source(&self, id: u64) -> (r: Result<SourceFile, FileError>)
        ensures
            match r {
                Result::Ok(s) => self.model().sources.dom().contains(id) && s@
                    == self.model().sources[id],
                Result::Err(_) => !self.model().sources.dom().contains(id),
            },
    ;

    /// Try to access the raw file with the given identifier.
    fn file(&self, id: u64) -> (r: Result<Vec<u8>, FileError>)
        ensures
            match r {
                Result::Ok(b) => self.model().files.dom().contains(id) && b@
                    == self.model().files[id],
                Result::Err(_) => !self.model().files.dom().contains(id),
            },
    ;

    /// Try to access the font with the given index in the font book.
    fn font(&self, index: usize) -> (r: Option<Font>)
        ensures
            match r {
                Option::Some(f) => self.model().fonts.contains(index) && f.index == index,
                Option::None => !self.model().fonts.contains(index),
            },
    ;

    /// The current date, if the provider knows one.  When an hour offset
    /// is given the provider answers for that zone; what it answers then
    /// is the provider's own affair.
    fn today(&self, offset: Option<i64>) -> (r: Option<Datetime>)
        ensures
            offset is None ==> r == self.model().today,
    ;
}


/// Copy an expression.
pub fn clone_expr(e: &Expr) -> (r: Expr)
    ensures
        r@ == e@,
{
    match e {
        Expr::Lit { value } => Expr::Lit { value: *value },
        Expr::Ref { name, span } => Expr::Ref { name: clone_bytes(name), span: *span },
    }
}

/// Copy one markup item.
pub fn clone_item(item: &MarkupItem) -> (r: MarkupItem)
    ensures
        r@ == item@,
    decreases item_size(item@), 0nat,
{
    match item {
        MarkupItem::Par { words, span } => MarkupItem::Par {
            words: clone_words(words),
            span: *span,
        },
        MarkupItem::Image { id, width, height, span } => MarkupItem::Image {
            id: *id,
            width: *width,
            height: *height,
            span: *span,
        },
        MarkupItem::Today { span } => MarkupItem::Today { span: *span },
        MarkupItem::Import { id, span } => MarkupItem::Import { id: *id, span: *span },
        MarkupItem::Bind { name, init, span } => MarkupItem::Bind {
            name: clone_bytes(name),
            init: clone_expr(init),
            span: *span,
        },
        MarkupItem::Scoped { prop, value, body, span } => {
            proof {
                assert(body@.subrange(0, body@.len() as int) =~= body@);
                assert(items_view(body@.subrange(0, body@.len() as int)) == items_view(body@));
                assert(item_size(item@) == 1 + items_size(items_view(body@)));
            }
            MarkupItem::Scoped {
                prop: *prop,
                value: clone_expr(value),
                body: clone_items(body, 0),
                span: *span,
            }
        },
    }
}

/// Copy the items of a list from position `i` on.
pub fn clone_items(items: &Vec<MarkupItem>, i: usize) -> (r: Vec<MarkupItem>)
    requires
        i <= items.len(),
    ensures
        items_view(r@) == items_view(items@.subrange(i as int, items@.len() as int)),
    decreases items_size(items_view(items@.subrange(i as int, items@.len() as int))), 1nat,
{
    let ghost sub_i = items@.subrange(i as int, items@.len() as int);
    let ghost tail = items_view(sub_i);
    if i == items.len() {
        proof {
            assert(sub_i =~= Seq::<MarkupItem>::empty());
        }
        let r: Vec<MarkupItem> = Vec::new();
        proof {
            assert(items_view(r@) =~= Seq::<crate::markup::ItemV>::empty());
        }
        return r;
    }
    proof {
        assert(sub_i[0] == items@[i as int]);
        assert(sub_i.drop_first() =~= items@.subrange(i as int + 1, items@.len() as int));
        lemma_items_view_len(sub_i);
        assert(tail == seq![item_view(sub_i[0])] + items_view(sub_i.drop_first()));
        assert(tail[0] == item_view(items@[i as int]));
        assert(tail.drop_first() =~= items_view(sub_i.drop_first()));
        lemma_items_size_drop(tail);
    }
    let item = &items[i];
    proof {
        assert(*item == items@[i as int]);
    }
    let head = clone_item(item);
    let mut out: Vec<MarkupItem> = Vec::new();
    out.push(head);
    let ghost headv = out@;
    let mut rest = clone_items(items, i + 1);
    let ghost restv = rest@;
    out.append(&mut rest);
    proof {
        assert(out@ == headv + restv);
        assert(out@[0] == headv[0]);
        assert(out@.drop_first() =~= restv);
        assert(items_view(out@) == seq![item_view(out@[0])] + items_view(out@.drop_first()));
    }
    out
}

/// Copy a source file.
pub fn clone_source(s: &SourceFile) -> (r: SourceFile)
    ensures
        r@ == s@,
{
    proof {
        assert(s.items@.subrange(0, s.items@.len() as int) =~= s.items@);
    }
    SourceFile { id: s.id, items: clone_items(&s.items, 0) }
}

/// A raw file a [`StaticWorld`] can resolve.
pub struct FileRecord {
    /// The identifier the file resolves under.
    pub id: u64,
    /// The file's bytes.
    pub data: Vec<u8>,
}

/// The position of the first source with identifier `id`, or a negative
/// number when there is none.
pub open spec fn find_source(ss: Seq<SourceFile>, id: u64) -> int
    decreases ss.len(),
{
    if ss.len() == 0 {
        -1
    } else if ss[0].id == id {
        0
    } else {
        let r = find_source(ss.drop_first(), id);
        if r < 0 {
            -1
        } else {
            r + 1
        }
    }
}

/// What `find_source` answers when a first match exists.
pub proof fn lemma_find_source_hit(ss: Seq<SourceFile>, id: u64, k: int)
    requires
        0 <= k < ss.len(),
        ss[k].id == id,
        forall|j: int| 0 <= j < k ==> ss[j].id != id,
    ensures
        find_source(ss, id) == k,
    decreases ss.len(),
{
    if k > 0 {
        lemma_find_source_hit(ss.drop_first(), id, k - 1);
    }
}

/// What `find_source` answers when no match exists.
pub proof fn lemma_find_source_miss(ss: Seq<SourceFile>, id: u64)
    requires
        forall|j: int| 0 <= j < ss.len() ==> ss[j].id != id,
    ensures
        find_source(ss, id) < 0,
    decreases ss.len(),
{
    if ss.len() > 0 {
        lemma_find_source_miss(ss.drop_first(), id);
    }
}

/// A found source is in range and has the identifier looked for.
pub proof fn lemma_find_source_range(ss: Seq<SourceFile>, id: u64)
    requires
        find_source(ss, id) >= 0,
    ensures
        find_source(ss, id) < ss.len(),
        ss[find_source(ss, id)].id == id,
    decreases ss.len(),
{
    if ss.len() > 0 && ss[0].id != id {
        lemma_find_source_range(ss.drop_first(), id);
    }
}

/// The position of the first file with identifier `id`, or a negative
/// number when there is none.
pub open spec fn find_file(fs: Seq<FileRecord>, id: u64) -> int
    decreases fs.len(),
{
    if fs.len() == 0 {
        -1
    } else if fs[0].id == id {
        0
    } else {
        let r = find_file(fs.drop_first(), id);
        if r < 0 {
            -1
        } else {
            r + 1
        }
    }
}

/// What `find_file` answers when a first match exists.
pub proof fn lemma_find_file_hit(fs: Seq<FileRecord>, id: u64, k: int)
    requires
        0 <= k < fs.len(),
        fs[k].id == id,
        forall|j: int| 0 <= j < k ==> fs[j].id != id,
    ensures
        find_file(fs, id) == k,
    decreases fs.len(),
{
    if k > 0 {
        lemma_find_file_hit(fs.drop_first(), id, k - 1);
    }
}

/// What `find_file` answers when no match exists.
pub proof fn lemma_find_file_miss(fs: Seq<FileRecord>, id: u64)
    requires
        forall|j: int| 0 <= j < fs.len() ==> fs[j].id != id,
    ensures
        find_file(fs, id) < 0,
    decreases fs.len(),
{
    if fs.len() > 0 {
        lemma_find_file_miss(fs.drop_first(), id);
    }
}

/// When some source carries the identifier, the search finds one.
pub proof fn lemma_find_source_found(ss: Seq<SourceFile>, id: u64, k: int)
    requires
        0 <= k < ss.len(),
        ss[k].id == id,
    ensures
        find_source(ss, id) >= 0,
    decreases ss.len(),
{
    if ss[0].id != id {
        lemma_find_source_found(ss.drop_first(), id, k - 1);
    }
}

/// A found file is in range and has the identifier looked for.
pub proof fn lemma_find_file_range(fs: Seq<FileRecord>, id: u64)
    requires
        find_file(fs, id) >= 0,
    ensures
        find_file(fs, id) < fs.len(),
        fs[find_file(fs, id)].id == id,
    decreases fs.len(),
{
    if fs.len() > 0 && fs[0].id != id {
        lemma_find_file_range(fs.drop_first(), id);
    }
}

/// An in-memory provider: everything it can answer is held in plain
/// vectors.  Where two sources (or files) carry the same identifier the
/// first one wins, as its model states.
pub struct StaticWorld {
    /// The standard scope.
    pub lib: Vec<Binding>,
    /// The font book.
    pub book: FontBook,
    /// The identifier of the main source.
    pub main: u64,
    /// The sources, by identifier.
    pub sources: Vec<SourceFile>,
    /// The raw files, by identifier.
    pub files: Vec<FileRecord>,
    /// The loadable fonts' data, by book index.
    pub fonts: Vec<Vec<u8>>,
    /// The current date, if one is known.
    pub today: Option<Datetime>,
}

impl World for StaticWorld {
    open spec fn model(&self) -> WorldModel {
        WorldModel {
            lib: scope_view(self.lib@),
            book: self.book@,
            main: self.main,
            sources: Map::new(
                |id: u64| find_source(self.sources@, id) >= 0,
                |id: u64| self.sources@[find_source(self.sources@, id)]@,
            ),
            files: Map::new(
                |id: u64| find_file(self.files@, id) >= 0,
                |id: u64| self.files@[find_file(self.files@, id)].data@,
            ),
            fonts: Set::new(|i: usize| i < self.fonts@.len()),
            today: self.today,
        }
    }

    fn library(&self) -> (r: Vec<Binding>) {
        clone_scope(&self.lib)
    }

    fn book(&self) -> (r: FontBook) {
        FontBook { families: clone_words(&self.book.families) }
    }

    fn main_id(&self) -> (r: u64) {
        self.main
    }

    fn main(&self) -> (r: SourceFile) {
        match self.source(self.main) {
            Result::Ok(s) => s,
            Result::Err(_) => {
                proof {
                    assert(false);
                }
                vstd::pervasive::unreached()
            },
        }
    }

    fn source(&self, id: u64) -> (r: Result<SourceFile, FileError>) {
        let mut i: usize = 0;
        while i < self.sources.len()
            invariant
                i <= self.sources.len(),
                forall|j: int| 0 <= j < i ==> self.sources@[j].id != id,
            decreases self.sources.len() - i,
        {
            if self.sources[i].id == id {
                proof {
                    lemma_find_source_hit(self.sources@, id, i as int);
                }
                return Result::Ok(clone_source(&self.sources[i]));
            }
            i = i + 1;
        }
        proof {
            lemma_find_source_miss(self.sources@, id);
        }
        Result::Err(FileError::NotFound)
    }

    fn file(&self, id: u64) -> (r: Result<Vec<u8>, FileError>) {
        let mut i: usize = 0;
        while i < self.files.len()
            invariant
                i <= self.files.len(),
                forall|j: int| 0 <= j < i ==> self.files@[j].id != id,
            decreases self.files.len() - i,
        {
            if self.files[i].id == id {
                proof {
                    lemma_find_file_hit(self.files@, id, i as int);
                }
                return Result::Ok(clone_bytes(&self.files[i].data));
            }
            i = i + 1;
        }
        proof {
            lemma_find_file_miss(self.files@, id);
        }
        Result::Err(FileError::NotFound)
    }

    fn font(&self, index: usize) -> (r: Option<Font>) {
        if index < self.fonts.len() {
            Option::Some(Font { index, data: clone_bytes(&self.fonts[index]) })
        } else {
            Option::None
        }
    }

    fn today(&self, offset: Option<i64>) -> (r: Option<Datetime>) {
        self.today
    }
}

/// A static world whose main identifier is among its sources is a usable
/// provider: its model resolves finitely many sources, the main one
/// included.
pub proof fn lemma_static_world_wf(w: StaticWorld, k: int)
    requires
        0 <= k < w.sources@.len(),
        w.sources@[k].id == w.main,
    ensures
        w.model().wf(),
{
    broadcast use vstd::seq_lib::seq_to_set_is_finite;

    let dom = w.model().sources.dom();
    let ids = w.sources@.map_values(|s: SourceFile| s.id);
    assert(ids.to_set().finite());
    assert forall|id: u64| dom.contains(id) implies ids.to_set().contains(id) by {
        lemma_find_source_range(w.sources@, id);
        let at = find_source(w.sources@, id);
        assert(ids[at] == id);
        assert(ids.contains(id));
    }
    vstd::set_lib::lemma_len_subset(dom, ids.to_set());
    lemma_find_source_found(w.sources@, w.main, k);
    assert(dom.contains(w.main));
}

} // verus!
