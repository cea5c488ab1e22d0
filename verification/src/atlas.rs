//! Rectangle-packing texture atlas.
//!
//! Placements are carved out of free rectangles kept per backing texture.
//! The search walks the backing textures in creation order and each free
//! list in reverse-insertion order; a free rectangle is reusable only when
//! it is strictly wider and strictly taller than the request. The chosen
//! rectangle is replaced by its corner-split remainders. When nothing fits,
//! a new fixed-size backing texture is opened, the placement sits at its
//! origin, and the returned token stands for the new texture's pending
//! clear operation. Placements are never reclaimed.

use vstd::prelude::*;

use crate::rect::{
    bottom_remainder, lemma_contained_disjoint, lemma_contained_in_backing,
    lemma_corner_split_tiles, lemma_disjoint_no_common_point, placed_rect, rect_contains,
    rect_has_point, rects_disjoint, right_remainder, split_remainders, Rect, BACKING_SIZE,
};
use crate::token::CompletionToken;

verus! {

/// One backing texture: its remaining free rectangles, and (for the proof)
/// the placements handed out of it.
pub struct AtlasPage {
    pub free: Vec<Rect>,
    pub placed: Ghost<Seq<Rect>>,
}

/// A rectangle-packing allocator over a growing list of fixed-size backing
/// textures.
pub struct TexAtlas {
    pub pages: Vec<AtlasPage>,
}

/// A placement: which backing texture it sits on, and where.
#[derive(Clone, Copy, PartialEq, Eq, Structural, Debug)]
pub struct Subtex {
    pub tex: usize,
    pub rect: Rect,
}

/// The one fatal allocation error: no backing texture can ever satisfy the
/// request.
#[derive(Clone, Copy, PartialEq, Eq, Structural, Debug)]
pub enum AtlasError {
    RequestTooLarge,
}

/// `r` lies inside the fixed backing-texture bounds.
pub open spec fn rect_in_backing(r: Rect) -> bool {
    &&& r.x + r.w <= BACKING_SIZE
    &&& r.y + r.h <= BACKING_SIZE
}

/// The free rectangle `r` can host a `(w, h)` request. Strictly larger on
/// both axes: exact fits are deliberately left unused.
pub open spec fn rect_fits(r: Rect, w: u32, h: u32) -> bool {
    r.w > w && r.h > h
}

/// Some free rectangle of the list can host the request.
pub open spec fn page_has_fit(free: Seq<Rect>, w: u32, h: u32) -> bool {
    exists|i: int| 0 <= i < free.len() && rect_fits(#[trigger] free[i], w, h)
}

/// Well-formedness of one page: everything lies inside the backing bounds,
/// free rectangles are pairwise disjoint, placements are pairwise disjoint,
/// and no free rectangle overlaps a placement.
pub open spec fn page_wf(p: AtlasPage) -> bool {
    &&& forall|i: int| 0 <= i < p.free@.len() ==> rect_in_backing(#[trigger] p.free@[i])
    &&& forall|i: int, j: int|
        0 <= i < p.free@.len() && 0 <= j < p.free@.len() && i != j ==> rects_disjoint(
            #[trigger] p.free@[i],
            #[trigger] p.free@[j],
        )
    &&& forall|i: int| 0 <= i < p.placed@.len() ==> rect_in_backing(#[trigger] p.placed@[i])
    &&& forall|i: int, j: int|
        0 <= i < p.placed@.len() && 0 <= j < p.placed@.len() && i != j ==> rects_disjoint(
            #[trigger] p.placed@[i],
            #[trigger] p.placed@[j],
        )
    &&& forall|i: int, j: int|
        0 <= i < p.free@.len() && 0 <= j < p.placed@.len() ==> rects_disjoint(
            #[trigger] p.free@[i],
            #[trigger] p.placed@[j],
        )
}

impl TexAtlas {
    /// Number of backing textures opened so far.
    pub open spec fn page_count(self) -> int {
        self.pages@.len() as int
    }

    /// The free rectangles of page `k`.
    pub open spec fn free_of(self, k: int) -> Seq<Rect> {
        self.pages@[k].free@
    }

    /// The placements recorded on page `k`.
    pub open spec fn placed_of(self, k: int) -> Seq<Rect> {
        self.pages@[k].placed@
    }

    /// Every page is well-formed.
    pub open spec fn wf(self) -> bool {
        forall|k: int| 0 <= k < self.page_count() ==> page_wf(#[trigger] self.pages@[k])
    }
}

/// Some page of the atlas can host the request.
pub open spec fn atlas_has_fit(a: TexAtlas, w: u32, h: u32) -> bool {
    exists|k: int|
        0 <= k < a.page_count() && page_has_fit(#[trigger] a.pages@[k].free@, w, h)
}

/// The full rectangle of a freshly opened backing texture.
pub open spec fn full_backing_rect() -> Rect {
    Rect { x: 0u32, y: 0u32, w: BACKING_SIZE, h: BACKING_SIZE }
}

/// How a successful allocation that reused a free rectangle relates the new
/// atlas state to the old: the first page with a usable free rectangle was
/// chosen, within it the most recently inserted usable free rectangle; the
/// placement sits at that rectangle's origin corner; the rectangle is
/// replaced by its corner-split remainders; every other page is untouched;
/// and the returned token is already complete.
pub open spec fn alloc_reused_post(
    pre: TexAtlas,
    post: TexAtlas,
    w: u32,
    h: u32,
    sub: Subtex,
    tok: CompletionToken,
) -> bool {
    let k = sub.tex as int;
    &&& 0 <= k < pre.page_count()
    &&& post.page_count() == pre.page_count()
    &&& forall|k2: int| 0 <= k2 < k ==> !page_has_fit(#[trigger] pre.pages@[k2].free@, w, h)
    &&& exists|i: int|
        {
            &&& 0 <= i < pre.free_of(k).len()
            &&& rect_fits(#[trigger] pre.free_of(k)[i], w, h)
            &&& forall|j: int|
                i < j < pre.free_of(k).len() ==> !rect_fits(#[trigger] pre.free_of(k)[j], w, h)
            &&& sub.rect == placed_rect(pre.free_of(k)[i], w, h)
            &&& post.free_of(k) == pre.free_of(k).remove(i) + split_remainders(
                pre.free_of(k)[i],
                w,
                h,
            )
        }
    &&& post.placed_of(k) == pre.placed_of(k).push(sub.rect)
    &&& forall|k2: int|
        0 <= k2 < pre.page_count() && k2 != k ==> post.pages@[k2] == #[trigger] pre.pages@[k2]
    &&& tok == CompletionToken::Complete
}

/// How a successful allocation that opened a new backing texture relates the
/// new atlas state to the old: the placement sits at the origin of the new
/// page, whose free list is the corner-split of the full backing rectangle;
/// old pages are untouched; and the returned token stands for the new
/// texture's pending clear operation, named by the page index.
pub open spec fn alloc_new_page_post(
    pre: TexAtlas,
    post: TexAtlas,
    w: u32,
    h: u32,
    sub: Subtex,
    tok: CompletionToken,
) -> bool {
    &&& sub.tex == pre.page_count()
    &&& post.page_count() == pre.page_count() + 1
    &&& sub.rect == (Rect { x: 0u32, y: 0u32, w, h })
    &&& post.free_of(sub.tex as int) == split_remainders(full_backing_rect(), w, h)
    &&& post.placed_of(sub.tex as int) == seq![sub.rect]
    &&& forall|k2: int|
        0 <= k2 < pre.page_count() ==> post.pages@[k2] == #[trigger] pre.pages@[k2]
    &&& tok == (CompletionToken::SingleOp { op: sub.tex as u64 })
}

/// What a successful allocation guarantees: the placement has the requested
/// size, and the atlas changed by exactly one reuse or one new page.
pub open spec fn alloc_ok_post(
    pre: TexAtlas,
    post: TexAtlas,
    w: u32,
    h: u32,
    sub: Subtex,
    tok: CompletionToken,
) -> bool {
    &&& sub.rect.w == w && sub.rect.h == h
    &&& if atlas_has_fit(pre, w, h) {
        alloc_reused_post(pre, post, w, h, sub, tok)
    } else {
        alloc_new_page_post(pre, post, w, h, sub, tok)
    }
}

/// No two placements on one backing texture overlap: in a well-formed atlas
/// any two distinct recorded placements on the same page are disjoint and
/// share no point.
pub proof fn lemma_placements_disjoint(a: TexAtlas, k: int, i: int, j: int)
    requires
        a.wf(),
        0 <= k < a.page_count(),
        0 <= i < a.placed_of(k).len(),
        0 <= j < a.placed_of(k).len(),
        i != j,
    ensures
        rects_disjoint(a.placed_of(k)[i], a.placed_of(k)[j]),
        forall|px: int, py: int|
            !(rect_has_point(a.placed_of(k)[i], px, py) && rect_has_point(
                a.placed_of(k)[j],
                px,
                py,
            )),
{
    assert(page_wf(a.pages@[k]));
    lemma_disjoint_no_common_point(a.placed_of(k)[i], a.placed_of(k)[j]);
}

/// Replacing the chosen free rectangle by its corner-split remainders and
/// recording the placement keeps a page well-formed.
proof fn lemma_reuse_preserves_page_wf(pre: AtlasPage, post: AtlasPage, i: int, w: u32, h: u32)
    requires
        page_wf(pre),
        0 <= i < pre.free@.len(),
        rect_fits(pre.free@[i], w, h),
        post.free@ == pre.free@.remove(i) + split_remainders(pre.free@[i], w, h),
        post.placed@ == pre.placed@.push(placed_rect(pre.free@[i], w, h)),
    ensures
        page_wf(post),
{
    let f = pre.free@[i];
    let p = placed_rect(f, w, h);
    let pieces = split_remainders(f, w, h);
    let n = pre.free@.len() as int;
    let rem = pre.free@.remove(i);

    assert(rect_in_backing(f));
    lemma_corner_split_tiles(f, w, h);
    assert(pieces.len() == 2);
    assert(pieces[0] == right_remainder(f, w));
    assert(pieces[1] == bottom_remainder(f, w, h));
    assert(post.free@.len() == n + 1);
    assert(forall|a: int| 0 <= a < n - 1 ==> post.free@[a] == rem[a]);
    assert(forall|a: int| n - 1 <= a < n + 1 ==> post.free@[a] == pieces[a - (n - 1)]);

    // Free rectangles stay inside the backing bounds.
    assert forall|a: int| 0 <= a < post.free@.len() implies rect_in_backing(
        #[trigger] post.free@[a],
    ) by {
        if a < n - 1 {
            let oa = if a < i { a } else { a + 1 };
            assert(post.free@[a] == pre.free@[oa]);
        } else {
            assert(rect_contains(f, post.free@[a]));
            lemma_contained_in_backing(post.free@[a], f);
        }
    }

    // Free rectangles stay pairwise disjoint.
    assert forall|a: int, b: int|
        0 <= a < post.free@.len() && 0 <= b < post.free@.len() && a != b implies rects_disjoint(
        #[trigger] post.free@[a],
        #[trigger] post.free@[b],
    ) by {
        if a < n - 1 && b < n - 1 {
            let oa = if a < i { a } else { a + 1 };
            let ob = if b < i { b } else { b + 1 };
            assert(post.free@[a] == pre.free@[oa] && post.free@[b] == pre.free@[ob]);
            assert(rects_disjoint(pre.free@[oa], pre.free@[ob]));
        } else if a < n - 1 {
            let oa = if a < i { a } else { a + 1 };
            assert(post.free@[a] == pre.free@[oa]);
            assert(rect_contains(f, post.free@[b]));
            assert(rects_disjoint(pre.free@[i], pre.free@[oa]));
            lemma_contained_disjoint(post.free@[b], f, pre.free@[oa]);
        } else if b < n - 1 {
            let ob = if b < i { b } else { b + 1 };
            assert(post.free@[b] == pre.free@[ob]);
            assert(rect_contains(f, post.free@[a]));
            assert(rects_disjoint(pre.free@[i], pre.free@[ob]));
            lemma_contained_disjoint(post.free@[a], f, pre.free@[ob]);
        } else {
            assert(post.free@[a] == pieces[a - (n - 1)]);
            assert(post.free@[b] == pieces[b - (n - 1)]);
            assert(rects_disjoint(right_remainder(f, w), bottom_remainder(f, w, h)));
            assert(rects_disjoint(bottom_remainder(f, w, h), right_remainder(f, w)));
        }
    }

    // Placements stay inside the backing bounds.
    assert forall|a: int| 0 <= a < post.placed@.len() implies rect_in_backing(
        #[trigger] post.placed@[a],
    ) by {
        if a < pre.placed@.len() {
            assert(post.placed@[a] == pre.placed@[a]);
        } else {
            assert(post.placed@[a] == p);
            lemma_contained_in_backing(p, f);
        }
    }

    // Placements stay pairwise disjoint.
    assert forall|a: int, b: int|
        0 <= a < post.placed@.len() && 0 <= b < post.placed@.len() && a != b implies rects_disjoint(
        #[trigger] post.placed@[a],
        #[trigger] post.placed@[b],
    ) by {
        let m = pre.placed@.len() as int;
        if a < m && b < m {
            assert(rects_disjoint(pre.placed@[a], pre.placed@[b]));
        } else if a < m {
            assert(post.placed@[b] == p);
            assert(rects_disjoint(pre.free@[i], pre.placed@[a]));
            lemma_contained_disjoint(p, f, pre.placed@[a]);
        } else {
            assert(post.placed@[a] == p);
            assert(rects_disjoint(pre.free@[i], pre.placed@[b]));
            lemma_contained_disjoint(p, f, pre.placed@[b]);
        }
    }

    // No free rectangle overlaps a placement.
    assert forall|a: int, b: int|
        0 <= a < post.free@.len() && 0 <= b < post.placed@.len() implies rects_disjoint(
        #[trigger] post.free@[a],
        #[trigger] post.placed@[b],
    ) by {
        let m = pre.placed@.len() as int;
        if a < n - 1 {
            let oa = if a < i { a } else { a + 1 };
            assert(post.free@[a] == pre.free@[oa]);
            if b < m {
                assert(rects_disjoint(pre.free@[oa], pre.placed@[b]));
            } else {
                assert(post.placed@[b] == p);
                assert(rects_disjoint(pre.free@[i], pre.free@[oa]));
                lemma_contained_disjoint(p, f, pre.free@[oa]);
                assert(rects_disjoint(p, pre.free@[oa]));
            }
        } else {
            assert(rect_contains(f, post.free@[a]));
            if b < m {
                assert(rects_disjoint(pre.free@[i], pre.placed@[b]));
                lemma_contained_disjoint(post.free@[a], f, pre.placed@[b]);
            } else {
                assert(post.placed@[b] == p);
                assert(post.free@[a] == pieces[a - (n - 1)]);
            }
        }
    }
}

/// A freshly opened page, seeded with the corner-split of the full backing
/// rectangle and one placement at the origin, is well-formed.
proof fn lemma_new_page_wf(page: AtlasPage, w: u32, h: u32)
    requires
        w < BACKING_SIZE,
        h < BACKING_SIZE,
        page.free@ == split_remainders(full_backing_rect(), w, h),
        page.placed@ == seq![Rect { x: 0u32, y: 0u32, w, h }],
    ensures
        page_wf(page),
{
    let full = full_backing_rect();
    let p = placed_rect(full, w, h);
    lemma_corner_split_tiles(full, w, h);
    assert(p == (Rect { x: 0u32, y: 0u32, w, h }));
    assert(page.free@.len() == 2);
    assert(page.free@[0] == right_remainder(full, w));
    assert(page.free@[1] == bottom_remainder(full, w, h));
    assert(rects_disjoint(page.free@[1], page.free@[0]));
    assert(rect_in_backing(page.free@[0])) by {
        lemma_contained_in_backing(page.free@[0], full);
    }
    assert(rect_in_backing(page.free@[1])) by {
        lemma_contained_in_backing(page.free@[1], full);
    }
    assert(rect_in_backing(p)) by {
        lemma_contained_in_backing(p, full);
    }
    assert(rects_disjoint(page.free@[0], page.placed@[0]));
    assert(rects_disjoint(page.free@[1], page.placed@[0]));
}

impl TexAtlas {
    /// An empty atlas: no backing texture yet.
    pub fn new() -> (a: TexAtlas)
        ensures
            a.wf(),
            a.page_count() == 0,
    {
        TexAtlas { pages: Vec::new() }
    }

    /// Number of backing textures opened so far.
    pub fn num_pages(&self) -> (r: usize)
        ensures
            r == self.page_count(),
    {
        self.pages.len()
    }

    /// Find the placement target: the first page, in creation order, holding
    /// a usable free rectangle, and within it the most recently inserted
    /// usable free rectangle.
    fn find_fit(&self, w: u32, h: u32) -> (r: Option<(usize, usize)>)
        ensures
            match r {
                Some(pair) => {
                    let k = pair.0 as int;
                    let i = pair.1 as int;
                    &&& 0 <= k < self.page_count()
                    &&& 0 <= i < self.free_of(k).len()
                    &&& rect_fits(self.free_of(k)[i], w, h)
                    &&& forall|k2: int|
                        0 <= k2 < k ==> !page_has_fit(#[trigger] self.pages@[k2].free@, w, h)
                    &&& forall|j: int|
                        i < j < self.free_of(k).len() ==> !rect_fits(
                            #[trigger] self.free_of(k)[j],
                            w,
                            h,
                        )
                },
                None => !atlas_has_fit(*self, w, h),
            },
    {
        let mut k: usize = 0;
        while k < self.pages.len()
            invariant
                0 <= k <= self.pages@.len(),
                forall|k2: int| 0 <= k2 < k ==> !page_has_fit(#[trigger] self.pages@[k2].free@, w, h),
            decreases self.pages@.len() - k,
        {
            let page = &self.pages[k];
            let mut i: usize = page.free.len();
            while i > 0
                invariant
                    0 <= i <= page.free@.len(),
                    page == &self.pages@[k as int],
                    0 <= k < self.pages@.len(),
                    forall|k2: int|
                        0 <= k2 < k ==> !page_has_fit(#[trigger] self.pages@[k2].free@, w, h),
                    forall|j: int|
                        i <= j < page.free@.len() ==> !rect_fits(#[trigger] page.free@[j], w, h),
                decreases i,
            {
                i -= 1;
                let c = page.free[i];
                if c.w > w && c.h > h {
                    return Some((k, i));
                }
            }
            proof {
                assert(!page_has_fit(self.pages@[k as int].free@, w, h));
            }
            k += 1;
        }
        proof {
            assert(!atlas_has_fit(*self, w, h));
        }
        None
    }

    /// Place a `(w, h)` request.
    ///
    /// Fails exactly when the request cannot fit any backing texture, a
    /// fatal configuration error; the atlas is then unchanged. Otherwise the
    /// placement reuses the first usable free rectangle, or opens a new
    /// backing texture, as `alloc_ok_post` pins down, and the atlas stays
    /// well-formed: no two placements on one backing texture ever overlap.
    pub fn allocate(&mut self, w: u32, h: u32) -> (r: Result<(Subtex, CompletionToken), AtlasError>)
        requires
            old(self).wf(),
        ensures
            final(self).wf(),
            (r matches Err(e) && e == AtlasError::RequestTooLarge) <==> (w >= BACKING_SIZE || h
                >= BACKING_SIZE),
            r matches Err(_) ==> *final(self) == *old(self),
            r matches Ok(pair) ==> alloc_ok_post(*old(self), *final(self), w, h, pair.0, pair.1),
    {
        if w >= BACKING_SIZE || h >= BACKING_SIZE {
            return Err(AtlasError::RequestTooLarge);
        }

        match self.find_fit(w, h) {
            Some((k, i)) => {
                let ghost pre_page = self.pages@[k as int];
                let mut page = self.pages.remove(k);
                let f = page.free[i];
                page.free.remove(i);
                let pieces = f.sub_corner(w, h);
                let mut pi: usize = 0;
                while pi < pieces.len()
                    invariant
                        0 <= pi <= pieces@.len(),
                        page.free@ == pre_page.free@.remove(i as int) + pieces@.take(pi as int),
                        page.placed@ == pre_page.placed@,
                    decreases pieces@.len() - pi,
                {
                    let piece = pieces[pi];
                    page.free.push(piece);
                    proof {
                        assert(page.free@ =~= pre_page.free@.remove(i as int) + pieces@.take(
                            pi + 1,
                        ));
                    }
                    pi += 1;
                }
                let rect = Rect { x: f.x, y: f.y, w, h };
                let ghost placed1: Seq<Rect> = page.placed@.push(rect);
                page.placed = Ghost(placed1);
                proof {
                    assert(pieces@.take(pieces@.len() as int) =~= pieces@);
                    assert(rect == placed_rect(pre_page.free@[i as int], w, h));
                    lemma_reuse_preserves_page_wf(pre_page, page, i as int, w, h);
                }
                self.pages.insert(k, page);
                let sub = Subtex { tex: k, rect };
                proof {
                    let pre = *old(self);
                    let post = *self;
                    assert(atlas_has_fit(pre, w, h));
                    assert forall|k2: int|
                        0 <= k2 < post.page_count() implies page_wf(#[trigger] post.pages@[k2]) by {
                        if k2 != k as int {
                            assert(post.pages@[k2] == pre.pages@[k2]);
                            assert(page_wf(pre.pages@[k2]));
                        }
                    }
                    assert(alloc_reused_post(pre, post, w, h, sub, CompletionToken::Complete))
                        by {
                        assert(forall|k2: int|
                            0 <= k2 < pre.page_count() && k2 != k as int ==> #[trigger] post.pages@[k2] == pre.pages@[k2]);
                        let iw: int = i as int;
                        let kw: int = k as int;
                        assert((0 <= iw && iw < pre.free_of(kw).len()) && rect_fits(
                            pre.free_of(kw)[iw],
                            w,
                            h,
                        ) && (forall|j: int|
                            iw < j < pre.free_of(kw).len() ==> !rect_fits(
                                #[trigger] pre.free_of(kw)[j],
                                w,
                                h,
                            )) && sub.rect == placed_rect(pre.free_of(kw)[iw], w, h)
                            && post.free_of(kw) == pre.free_of(kw).remove(iw)
                            + split_remainders(pre.free_of(kw)[iw], w, h));
                    }
                }
                Ok((sub, CompletionToken::already_complete()))
            },
            None => {
                let full = Rect { x: 0, y: 0, w: BACKING_SIZE, h: BACKING_SIZE };
                let pieces = full.sub_corner(w, h);
                let rect = Rect { x: 0, y: 0, w, h };
                let ghost placed0: Seq<Rect> = seq![rect];
                let page = AtlasPage { free: pieces, placed: Ghost(placed0) };
                let k = self.pages.len();
                let sub = Subtex { tex: k, rect };
                let tok = CompletionToken::single_op(k as u64);
                self.pages.push(page);
                proof {
                    let pre = *old(self);
                    let post = *self;
                    lemma_new_page_wf(post.pages@[k as int], w, h);
                    assert forall|k2: int|
                        0 <= k2 < post.page_count() implies page_wf(#[trigger] post.pages@[k2]) by {
                        if k2 != k as int {
                            assert(post.pages@[k2] == pre.pages@[k2]);
                            assert(page_wf(pre.pages@[k2]));
                        }
                    }
                }
                Ok((sub, tok))
            },
        }
    }
}

} // verus!
