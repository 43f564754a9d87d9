//! The memoization substrate: a content-keyed cache for layout work.
//!
//! The cache maps the *contents* of a page group — never its allocation —
//! to the frame it builds.  A deterministic fingerprint of the group and
//! the page geometry serves as a fast filter; a hit is only taken after
//! the stored group compares equal value by value, so a fingerprint
//! collision can never produce a wrong frame.  Every entry carries the
//! invariant that its frame is exactly the one its group builds, which is
//! why using the cache cannot change any result: with the cache on or
//! off, a lookup returns `spec_frame` of the group.  A caller retains the
//! cache across compilations to reuse the frames of unchanged pages, and
//! discards it to invalidate everything.

use vstd::prelude::*;

use crate::eval::{bytes_eq, clone_bytes};
use crate::geom::{sat_add, PageSpec};
use crate::layout::{
    blocks_view, build_frame, spec_frame, Block, BlockBody, Frame, FrameItem,
};

verus! {

/// One mixing step of the fingerprint: rotate and fold one word in.
fn mix(h: u64, x: u64) -> u64 {
    ((h << 7) | (h >> 57)) ^ x
}

/// Fold a byte string into a fingerprint.
fn mix_bytes(h: u64, bytes: &Vec<u8>) -> u64 {
    let mut acc: u64 = mix(h, bytes.len() as u64);
    let mut i: usize = 0;
    while i < bytes.len()
        decreases bytes.len() - i,
    {
        acc = mix(acc, bytes[i] as u64);
        i = i + 1;
    }
    acc
}

/// Fold one block into a fingerprint.
fn mix_block(h: u64, b: &Block) -> u64 {
    let mut acc: u64 = mix(h, b.height);
    acc = mix(acc, b.indent);
    acc = mix(acc, b.span.file);
    acc = mix(acc, b.span.start);
    acc = mix(acc, b.span.end);
    match &b.body {
        BlockBody::Line { text, size } => {
            acc = mix(acc, 1);
            acc = mix(acc, *size);
            mix_bytes(acc, text)
        },
        BlockBody::ImageRef { id, width } => {
            acc = mix(acc, 2);
            acc = mix(acc, *id);
            mix(acc, *width)
        },
        BlockBody::Holder { width } => {
            acc = mix(acc, 3);
            mix(acc, *width)
        },
        BlockBody::DateLine { date, size } => {
            acc = mix(acc, 4);
            acc = mix(acc, date.year as u64);
            acc = mix(acc, date.month);
            acc = mix(acc, date.day);
            mix(acc, *size)
        },
    }
}

/// The content-derived fingerprint of a page group and its geometry.
/// It depends on the values alone, so equal groups built independently
/// fingerprint equally, in any process on any machine.
pub fn fingerprint(group: &Vec<Block>, page: &PageSpec) -> u64 {
    let mut acc: u64 = mix(0xcbf29ce484222325u64, group.len() as u64);
    acc = mix(acc, page.width);
    acc = mix(acc, page.height);
    acc = mix(acc, page.margin);
    let mut i: usize = 0;
    while i < group.len()
        decreases group.len() - i,
    {
        acc = mix_block(acc, &group[i]);
        i = i + 1;
    }
    acc
}

/// Whether two blocks hold the same values.
pub fn block_eq(a: &Block, b: &Block) -> (r: bool)
    ensures
        r == (a@ == b@),
{
    if a.height != b.height || a.indent != b.indent || a.span != b.span {
        return false;
    }
    match (&a.body, &b.body) {
        (BlockBody::Line { text: t1, size: s1 }, BlockBody::Line { text: t2, size: s2 }) => {
            let r = bytes_eq(t1, t2) && *s1 == *s2;
            proof {
                if r {
                    assert(a@ == b@);
                }
            }
            r
        },
        (
            BlockBody::ImageRef { id: i1, width: w1 },
            BlockBody::ImageRef { id: i2, width: w2 },
        ) => *i1 == *i2 && *w1 == *w2,
        (BlockBody::Holder { width: w1 }, BlockBody::Holder { width: w2 }) => *w1 == *w2,
        (
            BlockBody::DateLine { date: d1, size: s1 },
            BlockBody::DateLine { date: d2, size: s2 },
        ) => *d1 == *d2 && *s1 == *s2,
        _ => false,
    }
}

/// Whether two page groups hold the same blocks.
pub fn blocks_eq(a: &Vec<Block>, b: &Vec<Block>) -> (r: bool)
    ensures
        r == (blocks_view(a@) == blocks_view(b@)),
{
    proof {
        assert(blocks_view(a@).len() == a@.len());
        assert(blocks_view(b@).len() == b@.len());
    }
    if a.len() != b.len() {
        return false;
    }
    let mut i: usize = 0;
    while i < a.len()
        invariant
            i <= a.len(),
            a@.len() == b@.len(),
            forall|j: int| 0 <= j < i ==> a@[j]@ == b@[j]@,
        decreases a.len() - i,
    {
        if !block_eq(&a[i], &b[i]) {
            proof {
                assert(blocks_view(a@)[i as int] == a@[i as int]@);
                assert(blocks_view(b@)[i as int] == b@[i as int]@);
            }
            return false;
        }
        i = i + 1;
    }
    proof {
        assert(blocks_view(a@) =~= blocks_view(b@));
    }
    true
}

/// Copy a page group.
pub fn clone_blocks(v: &Vec<Block>) -> (r: Vec<Block>)
    ensures
        blocks_view(r@) == blocks_view(v@),
{
    let mut r: Vec<Block> = Vec::new();
    let mut i: usize = 0;
    while i < v.len()
        invariant
            i <= v.len(),
            r@.len() == i,
            forall|j: int| 0 <= j < i ==> r@[j]@ == v@[j]@,
        decreases v.len() - i,
    {
        r.push(crate::layout::clone_block(&v[i]));
        i = i + 1;
    }
    proof {
        assert(blocks_view(r@) =~= blocks_view(v@));
    }
    r
}

/// Copy a frame.
pub fn clone_frame(f: &Frame) -> (r: Frame)
    ensures
        r@ == f@,
{
    let mut items: Vec<FrameItem> = Vec::new();
    let mut i: usize = 0;
    while i < f.items.len()
        invariant
            i <= f.items.len(),
            items@.len() == i,
            forall|j: int| 0 <= j < i ==> items@[j]@ == f.items@[j]@,
        decreases f.items.len() - i,
    {
        let it = &f.items[i];
        items.push(FrameItem { x: it.x, y: it.y, block: crate::layout::clone_block(&it.block) });
        i = i + 1;
    }
    proof {
        assert(items@.map_values(|it: FrameItem| it@) =~= f.items@.map_values(
            |it: FrameItem| it@,
        ));
    }
    Frame { width: f.width, height: f.height, items }
}

/// One cache entry: the fingerprint, the group and geometry it was built
/// from, and the frame they build.
pub struct MemoEntry {
    /// The fingerprint of `group` and `page`.
    pub fp: u64,
    /// The page group the entry caches.
    pub group: Vec<Block>,
    /// The page geometry the entry caches.
    pub page: PageSpec,
    /// The frame that group builds on that page.
    pub frame: Frame,
}

/// The layout cache.  Its invariant — every stored frame is exactly what
/// its stored group builds — is what makes the cache transparent: a hit
/// and a rebuild agree on the value.
pub struct Memo {
    /// The entries, oldest first.
    pub entries: Vec<MemoEntry>,
    /// Whether lookups and inserts happen at all.  Disabling the cache
    /// only costs time; it never changes a result.
    pub enabled: bool,
    /// How many lookups were answered from the cache.
    pub hits: u64,
    /// How many lookups had to compute.
    pub misses: u64,
}

impl Memo {
    /// Every entry's frame is the one its group builds on its page.
    pub open spec fn wf(self) -> bool {
        forall|i: int|
            0 <= i < self.entries@.len() ==> (#[trigger] self.entries@[i]).frame@ == spec_frame(
                blocks_view(self.entries@[i].group@),
                self.entries@[i].page,
            )
    }

    /// An empty cache.
    pub fn new(enabled: bool) -> (r: Memo)
        ensures
            r.wf(),
            r.enabled == enabled,
            r.hits == 0,
            r.misses == 0,
            r.entries@.len() == 0,
    {
        Memo { entries: Vec::new(), enabled, hits: 0, misses: 0 }
    }

    /// The frame of one page group, from the cache when its fingerprint
    /// and contents match a prior build, freshly built (and retained)
    /// otherwise.  Either way the result is exactly the frame the group
    /// builds: the cache is transparent.
    pub fn frame_for(&mut self, group: &Vec<Block>, page: &PageSpec) -> (r: Frame)
        requires
            old(self).wf(),
        ensures
            final(self).wf(),
            final(self).enabled == old(self).enabled,
            r@ == spec_frame(blocks_view(group@), *page),
    {
        if self.enabled {
            let fp = fingerprint(group, page);
            let mut i: usize = 0;
            while i < self.entries.len()
                invariant
                    i <= self.entries.len(),
                    self.wf(),
                    self.enabled == old(self).enabled,
                    self.hits == old(self).hits,
                    self.misses == old(self).misses,
                    self.entries@ == old(self).entries@,
                decreases self.entries.len() - i,
            {
                let e = &self.entries[i];
                if e.fp == fp && e.page == *page && blocks_eq(&e.group, group) {
                    self.hits = sat_add(self.hits, 1);
                    let f = clone_frame(&self.entries[i].frame);
                    return f;
                }
                i = i + 1;
            }
            let frame = build_frame(group, page);
            self.misses = sat_add(self.misses, 1);
            let kept = clone_frame(&frame);
            let entry = MemoEntry { fp, group: clone_blocks(group), page: *page, frame: kept };
            let ghost pre = self.entries@;
            self.entries.push(entry);
            proof {
                assert forall|k: int| 0 <= k < self.entries@.len() implies (
                    #[trigger] self.entries@[k]).frame@ == spec_frame(
                    blocks_view(self.entries@[k].group@),
                    self.entries@[k].page,
                ) by {
                    if k < pre.len() {
                        assert(self.entries@[k] == pre[k]);
                    }
                }
            }
            frame
        } else {
            build_frame(group, page)
        }
    }
}

} // verus!
